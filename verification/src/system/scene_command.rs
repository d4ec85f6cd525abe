use vstd::prelude::*;

verus! {

/// A request to the scene manager, carried out between frames.
#[derive(Debug)]
pub enum SceneCommand {
    SetCurrentScene { scene_name: String },
}

/// Scene requests in the order they were made.
#[derive(Debug)]
pub struct SceneCommandQueue {
    commands: Vec<SceneCommand>,
}

/// The scene names that the requests ask for, in order.
pub open spec fn requested_names(commands: Seq<SceneCommand>) -> Seq<Seq<char>> {
    commands.map_values(
        |c: SceneCommand|
            match c {
                SceneCommand::SetCurrentScene { scene_name } => scene_name@,
            },
    )
}

impl SceneCommandQueue {
    /// The queued requests, oldest first.
    pub closed spec fn queued(&self) -> Seq<SceneCommand> {
        self.commands@
    }

    /// An empty queue.
    pub fn new() -> (r: Self)
        ensures
            r.queued() == Seq::<SceneCommand>::empty(),
    {
        SceneCommandQueue { commands: Vec::new() }
    }

    /// Asks for `scene_name` to become the current scene.
    pub fn set_current_scene(&mut self, scene_name: &str)
        ensures
            final(self).queued().len() == old(self).queued().len() + 1,
            final(self).queued().drop_last() == old(self).queued(),
            requested_names(final(self).queued()) == requested_names(old(self).queued()).push(
                scene_name@,
            ),
    {
        let ghost before = self.commands@;
        self.commands.push(SceneCommand::SetCurrentScene { scene_name: scene_name.to_owned() });
        assert(self.commands@.drop_last() =~= before);
        assert(requested_names(self.commands@) =~= requested_names(before).push(scene_name@));
    }

    /// Takes every queued request out, oldest first.
    pub fn drain(&mut self) -> (r: Vec<SceneCommand>)
        ensures
            r@ == old(self).queued(),
            final(self).queued() == Seq::<SceneCommand>::empty(),
    {
        let mut taken = Vec::new();
        core::mem::swap(&mut taken, &mut self.commands);
        taken
    }
}

impl Default for SceneCommandQueue {
    /// An empty queue.
    fn default() -> (r: Self)
        ensures
            r.queued() == Seq::<SceneCommand>::empty(),
    {
        SceneCommandQueue::new()
    }
}

/// Access to the scene request queue, and requests made through it.
pub trait SceneCommandApi {
    /// The queue that scene requests go to.
    spec fn scene_queue(&self) -> &SceneCommandQueue;

    /// The queue that scene requests go to, to be added to.
    fn scene_commands_mut(&mut self) -> (r: &mut SceneCommandQueue)
        ensures
            *r == *old(self).scene_queue(),
            *final(self).scene_queue() == *final(r),
    ;

    /// Asks for `scene_name` to become the current scene: the request is
    /// appended to the queue.
    fn set_current_scene(&mut self, scene_name: &str)
        ensures
            final(self).scene_queue().queued().drop_last() == old(self).scene_queue().queued(),
            final(self).scene_queue().queued().len() == old(self).scene_queue().queued().len() + 1,
            requested_names(final(self).scene_queue().queued()) == requested_names(
                old(self).scene_queue().queued(),
            ).push(scene_name@),
    {
        self.scene_commands_mut().set_current_scene(scene_name);
    }
}

} // verus!
