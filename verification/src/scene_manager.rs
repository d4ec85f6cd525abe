use vstd::prelude::*;

use crate::component::scene_owned::SceneId;
use crate::name_map::NameMap;

verus! {

/// A scene of the game, known by its name.
pub trait Scene {
    /// The name that the scene gives, as a value.
    spec fn scene_name(&self) -> String;

    /// The name the scene is registered under.
    fn name(&self) -> (r: String)
        ensures
            r@ == self.scene_name()@,
    ;
}

/// A scene with the identifier it was registered with.
#[derive(Debug)]
pub struct RegisteredScene<S> {
    scene_id: SceneId,
    scene: S,
}

impl<S> RegisteredScene<S> {
    /// The identifier the scene was registered with.
    pub closed spec fn id(&self) -> SceneId {
        self.scene_id
    }

    /// The scene.
    pub closed spec fn value(&self) -> S {
        self.scene
    }

    /// The identifier the scene was registered with.
    pub fn scene_id(&self) -> (r: SceneId)
        ensures
            r == self.id(),
    {
        self.scene_id
    }
}

/// What making a scene current takes, decided from the scene manager's state.
#[derive(Clone, Copy, Debug, PartialEq, Eq, Structural)]
pub enum SceneSwitch {
    /// The scene is current already, under this identifier: nothing to do.
    Stay(SceneId),
    /// The scene is to become current; the current scene, if there is one,
    /// is left first, and it has this identifier.
    Change { leaving: Option<SceneId> },
}

/// Why the scene manager refused a request.
#[derive(Clone, Copy, Debug, PartialEq, Eq, Structural)]
pub enum SceneError {
    /// A scene of that name is registered already.
    AlreadyRegistered,
    /// No scene of that name is registered.
    NotRegistered,
    /// No scene is current.
    CurrentSceneNotSet,
}

/// What a scene does when it is entered, on every frame, and when it is
/// left: entering and leaving work on a context of type `Ctx`, frames on
/// one of type `U`.
pub trait SceneHooks<Ctx, U>: Sized {
    /// Why a hook failed.
    type Error;

    /// What entering does: from the scene `before` and the context
    /// `context` to `after` and `after_context`, giving back `result`. Any
    /// change, unless the implementation says otherwise.
    open spec fn entered(before: Self, context: Ctx, after: Self, after_context: Ctx, result: Result<(), Self::Error>) -> bool {
        true
    }

    /// What a frame does, in the same terms.
    open spec fn updated(before: Self, context: U, after: Self, after_context: U, result: Result<(), Self::Error>) -> bool {
        true
    }

    /// What leaving does, in the same terms.
    open spec fn exited(before: Self, context: Ctx, after: Self, after_context: Ctx, result: Result<(), Self::Error>) -> bool {
        true
    }

    fn on_enter(&mut self, context: &mut Ctx) -> (r: Result<(), Self::Error>)
        ensures
            Self::entered(*old(self), *old(context), *final(self), *final(context), r),
    ;

    fn update(&mut self, context: &mut U) -> (r: Result<(), Self::Error>)
        ensures
            Self::updated(*old(self), *old(context), *final(self), *final(context), r),
    ;

    fn on_exit(&mut self, context: &mut Ctx) -> (r: Result<(), Self::Error>)
        ensures
            Self::exited(*old(self), *old(context), *final(self), *final(context), r),
    ;
}

/// What the hook gave back, for a result that came from a hook.
pub open spec fn hook_result<E>(r: Result<(), SceneRunError<E>>) -> Result<(), E> {
    match r {
        Err(SceneRunError::Hook(e)) => Err(e),
        _ => Ok(()),
    }
}

/// Why running a hook of the current scene failed: there was no scene to
/// run it on, or the hook itself failed.
#[derive(Debug)]
pub enum SceneRunError<E> {
    Scene(SceneError),
    Hook(E),
}

/// The text of an optional name.
pub open spec fn opt_text(name: Option<String>) -> Option<Seq<char>> {
    match name {
        Some(s) => Some(s@),
        None => None,
    }
}

/// The registered scenes, and which one is current, which one was current
/// before and which one is to become current. `S` is the scene type.
#[derive(Debug)]
pub struct SceneManager<S> {
    next_scene_id: usize,
    scenes: NameMap<RegisteredScene<S>>,
    current_scene: Option<String>,
    previous_scene: Option<String>,
    next_scene: Option<String>,
}

impl<S> SceneManager<S> {
    /// The registered scenes by name.
    pub closed spec fn scenes(&self) -> Map<Seq<char>, RegisteredScene<S>> {
        self.scenes.map()
    }

    /// The identifier that the next registered scene gets.
    pub closed spec fn next_id(&self) -> usize {
        self.next_scene_id
    }

    /// The name of the current scene.
    pub closed spec fn current(&self) -> Option<Seq<char>> {
        opt_text(self.current_scene)
    }

    /// The name of the scene that was current before.
    pub closed spec fn previous(&self) -> Option<Seq<char>> {
        opt_text(self.previous_scene)
    }

    /// The name of the scene that is to become current.
    pub closed spec fn next(&self) -> Option<Seq<char>> {
        opt_text(self.next_scene)
    }

    /// The identifier of the scene registered under `name`.
    pub open spec fn id_of(&self, name: Seq<char>) -> Option<SceneId> {
        if self.scenes().dom().contains(name) {
            Some(self.scenes()[name].id())
        } else {
            None
        }
    }

    /// Every registered scene got an identifier below the next one, and the
    /// current scene and the one to become current are registered.
    pub open spec fn wf(&self) -> bool {
        &&& self.scenes_wf()
        &&& forall|n: Seq<char>|
            #[trigger] self.scenes().dom().contains(n) ==> self.scenes()[n].id().0 < self.next_id()
        &&& forall|a: Seq<char>, b: Seq<char>|
            #[trigger] self.scenes().dom().contains(a) && #[trigger] self.scenes().dom().contains(b)
                && a != b ==> self.scenes()[a].id() != self.scenes()[b].id()
        &&& (self.current() matches Some(n) ==> self.scenes().dom().contains(n))
        &&& (self.next() matches Some(n) ==> self.scenes().dom().contains(n))
    }

    /// The name table is well formed.
    pub closed spec fn scenes_wf(&self) -> bool {
        self.scenes.wf()
    }

    /// No scene registered, none current.
    pub fn new() -> (r: Self)
        ensures
            r.wf(),
            r.scenes() == Map::<Seq<char>, RegisteredScene<S>>::empty(),
            r.next_id() == 0,
            r.current() is None,
            r.previous() is None,
            r.next() is None,
    {
        SceneManager {
            next_scene_id: 0,
            scenes: NameMap::new(),
            current_scene: None,
            previous_scene: None,
            next_scene: None,
        }
    }

    /// Whether another scene can be registered: identifiers are not used up.
    pub fn can_register(&self) -> (r: bool)
        ensures
            r == (self.next_id() < usize::MAX),
    {
        self.next_scene_id < usize::MAX
    }

    /// Registers `scene` under `name` with the next identifier. Refused,
    /// with no change, when a scene of that name is registered already.
    pub fn add_named_scene(&mut self, name: &str, scene: S) -> (r: Result<SceneId, SceneError>)
        requires
            old(self).wf(),
            old(self).next_id() < usize::MAX,
        ensures
            final(self).wf(),
            old(self).scenes().dom().contains(name@) ==> r == Err::<SceneId, SceneError>(
                SceneError::AlreadyRegistered,
            ) && *final(self) == *old(self),
            !old(self).scenes().dom().contains(name@) ==> {
                &&& r == Ok::<SceneId, SceneError>(SceneId(old(self).next_id() as usize))
                &&& final(self).scenes().dom() == old(self).scenes().dom().insert(name@)
                &&& final(self).scenes()[name@].id() == SceneId(old(self).next_id() as usize)
                &&& final(self).scenes()[name@].value() == scene
                &&& forall|n: Seq<char>|
                    #[trigger] old(self).scenes().dom().contains(n) ==> final(self).scenes()[n]
                        == old(self).scenes()[n]
                &&& final(self).next_id() == old(self).next_id() + 1
                &&& final(self).current() == old(self).current()
                &&& final(self).previous() == old(self).previous()
                &&& final(self).next() == old(self).next()
            },
    {
        if self.scenes.contains_key(name) {
            return Err(SceneError::AlreadyRegistered);
        }
        let scene_id = SceneId(self.next_scene_id);
        self.next_scene_id = self.next_scene_id + 1;
        self.scenes.insert(name, RegisteredScene { scene_id, scene });
        proof {
            assert forall|n: Seq<char>| #[trigger] self.scenes().dom().contains(n) implies self.scenes()[n].id().0
                < self.next_id() by {
                if n != name@ {
                    assert(old(self).scenes().dom().contains(n));
                }
            }
            assert forall|a: Seq<char>, b: Seq<char>|
                #[trigger] self.scenes().dom().contains(a) && #[trigger] self.scenes().dom().contains(b)
                    && a != b implies self.scenes()[a].id() != self.scenes()[b].id() by {
                if a != name@ && b != name@ {
                    assert(old(self).scenes().dom().contains(a));
                    assert(old(self).scenes().dom().contains(b));
                } else if a != name@ {
                    assert(old(self).scenes().dom().contains(a));
                    assert(old(self).scenes()[a].id().0 < old(self).next_id());
                } else {
                    assert(old(self).scenes().dom().contains(b));
                    assert(old(self).scenes()[b].id().0 < old(self).next_id());
                }
            }
        }
        Ok(scene_id)
    }

    /// Registers `scene` under its own name with the next identifier.
    /// Refused, with no change, when a scene of that name is registered
    /// already.
    pub fn add_scene(&mut self, scene: S) -> (r: Result<SceneId, SceneError>)
        where
            S: Scene,
        requires
            old(self).wf(),
            old(self).next_id() < usize::MAX,
        ensures
            final(self).wf(),
            ({
                let name = scene.scene_name()@;
                &&& old(self).scenes().dom().contains(name) ==> r == Err::<SceneId, SceneError>(
                    SceneError::AlreadyRegistered,
                ) && *final(self) == *old(self)
                &&& !old(self).scenes().dom().contains(name) ==> {
                    &&& r == Ok::<SceneId, SceneError>(SceneId(old(self).next_id() as usize))
                    &&& final(self).scenes().dom() == old(self).scenes().dom().insert(name)
                    &&& final(self).scenes()[name].id() == SceneId(old(self).next_id() as usize)
                    &&& final(self).scenes()[name].value() == scene
                    &&& forall|n: Seq<char>|
                        #[trigger] old(self).scenes().dom().contains(n) ==> final(self).scenes()[n]
                            == old(self).scenes()[n]
                    &&& final(self).next_id() == old(self).next_id() + 1
                    &&& final(self).current() == old(self).current()
                    &&& final(self).previous() == old(self).previous()
                    &&& final(self).next() == old(self).next()
                }
            }),
    {
        let name = scene.name();
        self.add_named_scene(name.as_str(), scene)
    }

    /// Whether a scene is registered under `name`.
    pub fn is_registered_scene(&self, name: &str) -> (r: bool)
        requires
            self.wf(),
        ensures
            r == self.scenes().dom().contains(name@),
    {
        self.scenes.contains_key(name)
    }

    /// The identifier of the scene registered under `name`.
    pub fn scene_id(&self, name: &str) -> (r: Option<SceneId>)
        requires
            self.wf(),
        ensures
            r == self.id_of(name@),
    {
        match self.scenes.get(name) {
            Some(registered) => Some(registered.scene_id),
            None => None,
        }
    }

    /// The identifier of the current scene, when one is current and
    /// registered.
    pub fn current_scene_id(&self) -> (r: Option<SceneId>)
        requires
            self.wf(),
        ensures
            r == (match self.current() {
                Some(name) => self.id_of(name),
                None => None,
            }),
    {
        match &self.current_scene {
            Some(name) => self.scene_id(name.as_str()),
            None => None,
        }
    }

    /// What making the scene `name` current takes: nothing when it is
    /// current already, otherwise leaving the current scene, if any, before
    /// setting and entering the new one.
    pub fn scene_switch(&self, name: &str) -> (r: SceneSwitch)
        requires
            self.wf(),
        ensures
            self.current() == Some(name@) ==> r == SceneSwitch::Stay(self.scenes()[name@].id()),
            self.current() != Some(name@) ==> r == (SceneSwitch::Change {
                leaving: match self.current() {
                    Some(c) => self.id_of(c),
                    None => None,
                },
            }),
    {
        let target = name.to_owned();
        match &self.current_scene {
            Some(current) => {
                if *current == target {
                    match self.scene_id(name) {
                        Some(id) => SceneSwitch::Stay(id),
                        None => SceneSwitch::Change { leaving: None },
                    }
                } else {
                    SceneSwitch::Change { leaving: self.current_scene_id() }
                }
            },
            None => SceneSwitch::Change { leaving: None },
        }
    }

    /// The scene registered under `name`.
    pub fn get_scene(&self, name: &str) -> (r: Option<&S>)
        requires
            self.wf(),
        ensures
            r == (if self.scenes().dom().contains(name@) {
                Some(&self.scenes()[name@].value())
            } else {
                None
            }),
    {
        match self.scenes.get(name) {
            Some(registered) => Some(&registered.scene),
            None => None,
        }
    }

    /// The scene registered under `name`, to be changed in place.
    pub fn get_scene_mut(&mut self, name: &str) -> (r: Option<&mut S>)
        requires
            old(self).wf(),
        ensures
            r is Some == old(self).scenes().dom().contains(name@),
            r is None ==> *final(self) == *old(self),
            r is Some ==> {
                &&& *r.unwrap() == old(self).scenes()[name@].value()
                &&& final(self).wf()
                &&& final(self).scenes().dom() == old(self).scenes().dom()
                &&& final(self).scenes()[name@].value() == *final(r.unwrap())
                &&& final(self).scenes()[name@].id() == old(self).scenes()[name@].id()
                &&& forall|n: Seq<char>|
                    n != name@ && #[trigger] old(self).scenes().dom().contains(n) ==> final(self).scenes()[n] == old(self).scenes()[n]
                &&& final(self).next_id() == old(self).next_id()
                &&& final(self).current() == old(self).current()
                &&& final(self).previous() == old(self).previous()
                &&& final(self).next() == old(self).next()
            },
    {
        match self.scenes.get_mut(name) {
            Some(registered) => {
                proof {
                    assert(old(self).scenes().dom().insert(name@) =~= old(self).scenes().dom());
                }
                Some(&mut registered.scene)
            },
            None => None,
        }
    }

    /// The current scene, to be entered, updated or exited. Refused when no
    /// scene is current, or when the current one is not registered.
    pub fn current_scene_mut(&mut self) -> (r: Result<&mut S, SceneError>)
        requires
            old(self).wf(),
        ensures
            old(self).current() is None ==> r == Err::<&mut S, SceneError>(
                SceneError::CurrentSceneNotSet,
            ) && *final(self) == *old(self),
            old(self).current() matches Some(name) ==> {
                &&& !old(self).scenes().dom().contains(name) ==> r == Err::<&mut S, SceneError>(
                    SceneError::NotRegistered,
                ) && *final(self) == *old(self)
                &&& old(self).scenes().dom().contains(name) ==> {
                    &&& r is Ok
                    &&& *r.unwrap() == old(self).scenes()[name].value()
                    &&& final(self).wf()
                    &&& final(self).scenes().dom() == old(self).scenes().dom()
                    &&& final(self).scenes()[name].value() == *final(r.unwrap())
                    &&& final(self).scenes()[name].id() == old(self).scenes()[name].id()
                    &&& forall|n: Seq<char>|
                        n != name && #[trigger] old(self).scenes().dom().contains(n) ==> final(self).scenes()[n]
                            == old(self).scenes()[n]
                    &&& final(self).next_id() == old(self).next_id()
                    &&& final(self).current() == old(self).current()
                    &&& final(self).previous() == old(self).previous()
                    &&& final(self).next() == old(self).next()
                }
            },
    {
        match &self.current_scene {
            Some(name) => {
                let name = name.clone();
                match self.get_scene_mut(name.as_str()) {
                    Some(scene) => Ok(scene),
                    None => Err(SceneError::NotRegistered),
                }
            },
            None => Err(SceneError::CurrentSceneNotSet),
        }
    }

    /// Runs the entering hook of the current scene. Refused when no scene is
    /// current; otherwise whatever the hook gives back, with the hook's
    /// error wrapped.
    pub fn enter_current_scene<Ctx, U>(&mut self, context: &mut Ctx) -> (r: Result<(), SceneRunError<S::Error>>)
        where S: SceneHooks<Ctx, U>,
        requires
            old(self).wf(),
        ensures
            final(self).wf(),
            old(self).current() is None ==> (r matches Err(SceneRunError::Scene(e)) && e == SceneError::CurrentSceneNotSet)
                && *final(self) == *old(self),
            old(self).current() is None ==> *final(context) == *old(context),
            old(self).current() is Some ==> (r is Ok || r matches Err(SceneRunError::Hook(_))),
            old(self).current() matches Some(name) ==> S::entered(
                old(self).scenes()[name].value(),
                *old(context),
                final(self).scenes()[name].value(),
                *final(context),
                hook_result(r),
            ),
            final(self).scenes().dom() == old(self).scenes().dom(),
            forall|n: Seq<char>| #[trigger] old(self).scenes().dom().contains(n) && Some(n) != old(self).current()
                ==> final(self).scenes()[n] == old(self).scenes()[n],
            forall|n: Seq<char>| #[trigger] old(self).scenes().dom().contains(n) ==> final(self).scenes()[n].id()
                == old(self).scenes()[n].id(),
            final(self).next_id() == old(self).next_id(),
            final(self).current() == old(self).current(),
            final(self).previous() == old(self).previous(),
            final(self).next() == old(self).next(),
    {
        match self.current_scene_mut() {
            Ok(scene) => match scene.on_enter(context) {
                Ok(done) => {
                    proof {
                        assert(done == ());
                    }
                    Ok(done)
                },
                Err(e) => Err(SceneRunError::Hook(e)),
            },
            Err(e) => Err(SceneRunError::Scene(e)),
        }
    }

    /// Runs the frame hook of the current scene; nothing when no scene is
    /// current. Whatever the hook gives back, with the hook's error wrapped.
    pub fn update_current_scene<Ctx, U>(&mut self, context: &mut U) -> (r: Result<(), SceneRunError<S::Error>>)
        where S: SceneHooks<Ctx, U>,
        requires
            old(self).wf(),
        ensures
            final(self).wf(),
            old(self).current() is None ==> r is Ok && *final(self) == *old(self),
            old(self).current() is None ==> *final(context) == *old(context),
            old(self).current() is Some ==> (r is Ok || r matches Err(SceneRunError::Hook(_))),
            old(self).current() matches Some(name) ==> S::updated(
                old(self).scenes()[name].value(),
                *old(context),
                final(self).scenes()[name].value(),
                *final(context),
                hook_result(r),
            ),
            final(self).scenes().dom() == old(self).scenes().dom(),
            forall|n: Seq<char>| #[trigger] old(self).scenes().dom().contains(n) && Some(n) != old(self).current()
                ==> final(self).scenes()[n] == old(self).scenes()[n],
            forall|n: Seq<char>| #[trigger] old(self).scenes().dom().contains(n) ==> final(self).scenes()[n].id()
                == old(self).scenes()[n].id(),
            final(self).next_id() == old(self).next_id(),
            final(self).current() == old(self).current(),
            final(self).previous() == old(self).previous(),
            final(self).next() == old(self).next(),
    {
        if self.current_scene.is_none() {
            return Ok(());
        }
        match self.current_scene_mut() {
            Ok(scene) => match scene.update(context) {
                Ok(done) => {
                    proof {
                        assert(done == ());
                    }
                    Ok(done)
                },
                Err(e) => Err(SceneRunError::Hook(e)),
            },
            Err(e) => Err(SceneRunError::Scene(e)),
        }
    }

    /// Runs the leaving hook of the current scene. Refused when no scene is
    /// current; otherwise whatever the hook gives back, with the hook's
    /// error wrapped.
    pub fn exit_current_scene<Ctx, U>(&mut self, context: &mut Ctx) -> (r: Result<(), SceneRunError<S::Error>>)
        where S: SceneHooks<Ctx, U>,
        requires
            old(self).wf(),
        ensures
            final(self).wf(),
            old(self).current() is None ==> (r matches Err(SceneRunError::Scene(e)) && e == SceneError::CurrentSceneNotSet)
                && *final(self) == *old(self),
            old(self).current() is None ==> *final(context) == *old(context),
            old(self).current() is Some ==> (r is Ok || r matches Err(SceneRunError::Hook(_))),
            old(self).current() matches Some(name) ==> S::exited(
                old(self).scenes()[name].value(),
                *old(context),
                final(self).scenes()[name].value(),
                *final(context),
                hook_result(r),
            ),
            final(self).scenes().dom() == old(self).scenes().dom(),
            forall|n: Seq<char>| #[trigger] old(self).scenes().dom().contains(n) && Some(n) != old(self).current()
                ==> final(self).scenes()[n] == old(self).scenes()[n],
            forall|n: Seq<char>| #[trigger] old(self).scenes().dom().contains(n) ==> final(self).scenes()[n].id()
                == old(self).scenes()[n].id(),
            final(self).next_id() == old(self).next_id(),
            final(self).current() == old(self).current(),
            final(self).previous() == old(self).previous(),
            final(self).next() == old(self).next(),
    {
        match self.current_scene_mut() {
            Ok(scene) => match scene.on_exit(context) {
                Ok(done) => {
                    proof {
                        assert(done == ());
                    }
                    Ok(done)
                },
                Err(e) => Err(SceneRunError::Hook(e)),
            },
            Err(e) => Err(SceneRunError::Scene(e)),
        }
    }

    /// The name of the current scene.
    pub fn current_scene_name(&self) -> (r: Option<&str>)
        ensures
            opt_str_text(r) == self.current(),
    {
        match &self.current_scene {
            Some(name) => Some(name.as_str()),
            None => None,
        }
    }

    /// The name of the scene that was current before.
    pub fn previous_scene_name(&self) -> (r: Option<&str>)
        ensures
            opt_str_text(r) == self.previous(),
    {
        match &self.previous_scene {
            Some(name) => Some(name.as_str()),
            None => None,
        }
    }

    /// The name of the scene that is to become current.
    pub fn next_scene_name(&self) -> (r: Option<&str>)
        ensures
            opt_str_text(r) == self.next(),
    {
        match &self.next_scene {
            Some(name) => Some(name.as_str()),
            None => None,
        }
    }

    /// Makes the registered scene `name` current; the scene that was current
    /// becomes the previous one. Refused, with no change, for a name that is
    /// not registered.
    pub fn set_current_scene(&mut self, name: &str) -> (r: Result<SceneId, SceneError>)
        requires
            old(self).wf(),
        ensures
            final(self).wf(),
            final(self).scenes() == old(self).scenes(),
            final(self).next_id() == old(self).next_id(),
            final(self).next() == old(self).next(),
            old(self).id_of(name@) is None ==> r == Err::<SceneId, SceneError>(
                SceneError::NotRegistered,
            ) && *final(self) == *old(self),
            old(self).id_of(name@) matches Some(id) ==> {
                &&& r == Ok::<SceneId, SceneError>(id)
                &&& final(self).current() == Some(name@)
                &&& final(self).previous() == old(self).current()
            },
    {
        let scene_id = match self.scene_id(name) {
            Some(id) => id,
            None => return Err(SceneError::NotRegistered),
        };
        self.previous_scene = match &self.current_scene {
            Some(current) => Some(current.clone()),
            None => None,
        };
        self.current_scene = Some(name.to_owned());
        Ok(scene_id)
    }

    /// Asks for the registered scene `name` to become current later.
    /// Refused, with no change, for a name that is not registered.
    pub fn change_scene(&mut self, name: &str) -> (r: Result<SceneId, SceneError>)
        requires
            old(self).wf(),
        ensures
            final(self).wf(),
            final(self).scenes() == old(self).scenes(),
            final(self).next_id() == old(self).next_id(),
            final(self).current() == old(self).current(),
            final(self).previous() == old(self).previous(),
            old(self).id_of(name@) is None ==> r == Err::<SceneId, SceneError>(
                SceneError::NotRegistered,
            ) && *final(self) == *old(self),
            old(self).id_of(name@) matches Some(id) ==> {
                &&& r == Ok::<SceneId, SceneError>(id)
                &&& final(self).next() == Some(name@)
            },
    {
        let scene_id = match self.scene_id(name) {
            Some(id) => id,
            None => return Err(SceneError::NotRegistered),
        };
        self.next_scene = Some(name.to_owned());
        Ok(scene_id)
    }

    /// Takes the name of the scene that is to become current.
    pub fn take_next_scene(&mut self) -> (r: Option<String>)
        ensures
            opt_text(r) == old(self).next(),
            final(self).next() is None,
            final(self).scenes() == old(self).scenes(),
            final(self).next_id() == old(self).next_id(),
            final(self).current() == old(self).current(),
            final(self).previous() == old(self).previous(),
            old(self).wf() ==> final(self).wf(),
    {
        let mut taken = None;
        core::mem::swap(&mut taken, &mut self.next_scene);
        proof {
            if old(self).wf() {
                assert forall|n: Seq<char>| #[trigger] self.scenes().dom().contains(n) implies self.scenes()[n].id().0
                    < self.next_id() by {
                    assert(old(self).scenes().dom().contains(n));
                }
            }
        }
        taken
    }

    /// Sets the name of the scene that was current before.
    pub fn set_previous_scene(&mut self, name: Option<String>)
        ensures
            final(self).previous() == opt_text(name),
            final(self).scenes() == old(self).scenes(),
            final(self).next_id() == old(self).next_id(),
            final(self).current() == old(self).current(),
            final(self).next() == old(self).next(),
            old(self).wf() ==> final(self).wf(),
    {
        self.previous_scene = name;
        proof {
            if old(self).wf() {
                assert forall|n: Seq<char>| #[trigger] self.scenes().dom().contains(n) implies self.scenes()[n].id().0
                    < self.next_id() by {
                    assert(old(self).scenes().dom().contains(n));
                }
                assert forall|a: Seq<char>, b: Seq<char>|
                    #[trigger] self.scenes().dom().contains(a) && #[trigger] self.scenes().dom().contains(b)
                        && a != b implies self.scenes()[a].id() != self.scenes()[b].id() by {
                    assert(old(self).scenes().dom().contains(a));
                    assert(old(self).scenes().dom().contains(b));
                }
            }
        }
    }
}

/// The current scene is always a registered one, so it has an identifier;
/// so has the scene that is to become current.
pub proof fn current_scene_is_registered<S>(manager: SceneManager<S>)
    requires
        manager.wf(),
    ensures
        manager.current() matches Some(name) ==> manager.id_of(name) is Some,
        manager.next() matches Some(name) ==> manager.id_of(name) is Some,
{
}

/// Scenes registered one after the other get distinct identifiers.
pub proof fn registered_ids_are_distinct<S>(manager: SceneManager<S>, a: Seq<char>, b: Seq<char>)
    requires
        manager.wf(),
        manager.id_of(a) is Some,
        manager.id_of(b) is Some,
        manager.id_of(a) == manager.id_of(b),
    ensures
        a == b,
{
}

/// The text of an optional borrowed name.
pub open spec fn opt_str_text(name: Option<&str>) -> Option<Seq<char>> {
    match name {
        Some(s) => Some(s@),
        None => None,
    }
}

impl<S> Default for SceneManager<S> {
    /// No scene registered, none current.
    fn default() -> (r: Self)
        ensures
            r.wf(),
            r.scenes() == Map::<Seq<char>, RegisteredScene<S>>::empty(),
            r.next_id() == 0,
            r.current() is None,
            r.previous() is None,
            r.next() is None,
    {
        SceneManager::new()
    }
}

} // verus!
