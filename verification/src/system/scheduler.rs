use vstd::prelude::*;

use crate::system::command::{CommandError, CommandSystem};
use crate::system::input_system::{InputSystem, InputTrigger};
use crate::system::render_command::RenderCommandQueue;
use crate::system::render_system::RenderSystem;

verus! {

/// Work done every frame on a context of type `Ctx`.
pub trait UpdateSystem<Ctx>: Sized {
    /// The state of the context in which the system can run; running it
    /// leaves the context in such a state again. Any state, unless the
    /// implementation says otherwise.
    open spec fn runnable(context: Ctx) -> bool {
        true
    }

    /// What one run does: from the system `before` and the context
    /// `context` to the system `after` and the context `after_context`,
    /// giving back `result`. Any run, unless the implementation says
    /// otherwise.
    open spec fn ran(
        before: Self,
        context: Ctx,
        after: Self,
        after_context: Ctx,
        result: Result<(), CommandError>,
    ) -> bool {
        true
    }

    /// Does the frame's work.
    fn update(&mut self, context: &mut Ctx) -> (r: Result<(), CommandError>)
        requires
            Self::runnable(*old(context)),
        ensures
            Self::runnable(*final(context)),
            Self::ran(*old(self), *old(context), *final(self), *final(context), r),
    ;
}

/// The part of a scheduled system in a stage that goes on past it: a
/// disabled system is left alone and leaves the context as it is; an
/// enabled one runs from `context` to `after_context` and succeeds. Either
/// way it keeps its name and flag.
pub open spec fn stage_step<Ctx, U: UpdateSystem<Ctx>>(
    before: ScheduledUpdateSystem<U>,
    after: ScheduledUpdateSystem<U>,
    context: Ctx,
    after_context: Ctx,
) -> bool {
    &&& after.name == before.name
    &&& after.enabled == before.enabled
    &&& if before.enabled {
        U::ran(before.system, context, after.system, after_context, Ok(()))
    } else {
        after.system == before.system && after_context == context
    }
}

/// A stage over `before` that passed the contexts `contexts` and stopped
/// at system `k`: the systems before `k` each took their step from one
/// context to the next; if `k` is past the last system the stage succeeded
/// in the last context, otherwise system `k` is enabled and failed from its
/// context with `result`, and the systems after it were left alone.
pub open spec fn stage_trace<Ctx, U: UpdateSystem<Ctx>>(
    before: Seq<ScheduledUpdateSystem<U>>,
    after: Seq<ScheduledUpdateSystem<U>>,
    contexts: Seq<Ctx>,
    k: int,
    after_context: Ctx,
    result: Result<(), CommandError>,
) -> bool {
    &&& after.len() == before.len()
    &&& 0 <= k <= before.len()
    &&& contexts.len() == k + 1
    &&& forall|j: int| 0 <= j < k ==> #[trigger] stage_step(before[j], after[j], contexts[j], contexts[j + 1])
    &&& forall|j: int| k < j < before.len() ==> #[trigger] after[j] == before[j]
    &&& if k == before.len() {
        result is Ok && after_context == contexts[k]
    } else {
        &&& before[k].enabled
        &&& result is Err
        &&& after[k].name == before[k].name
        &&& after[k].enabled
        &&& U::ran(before[k].system, contexts[k], after[k].system, after_context, result)
    }
}

/// Running the update stage over `before` from `context` can end with the
/// systems `after`, the context `after_context` and `result`.
pub open spec fn stage_ran<Ctx, U: UpdateSystem<Ctx>>(
    before: Seq<ScheduledUpdateSystem<U>>,
    after: Seq<ScheduledUpdateSystem<U>>,
    context: Ctx,
    after_context: Ctx,
    result: Result<(), CommandError>,
) -> bool {
    exists|contexts: Seq<Ctx>, k: int|
        #![trigger stage_trace(before, after, contexts, k, after_context, result)]
        contexts.len() > 0 && contexts[0] == context && stage_trace(before, after, contexts, k, after_context, result)
}

/// The enabled flags of the update systems, in running order.
pub open spec fn system_flags<U>(systems: Seq<ScheduledUpdateSystem<U>>) -> Seq<bool> {
    systems.map_values(|s: ScheduledUpdateSystem<U>| s.enabled)
}

/// An update system, the name it was added under, and whether it runs.
#[derive(Debug)]
pub struct ScheduledUpdateSystem<U> {
    pub name: String,
    pub system: U,
    pub enabled: bool,
}

/// The systems of a scene and the order they run in. `C` is the command
/// type of key bindings, `U` the update system type and `S` the shape
/// description of render commands.
#[derive(Debug)]
pub struct Scheduler<C, U, S> {
    pub command_system: CommandSystem,
    pub input_system: InputSystem<C>,
    pub render_system: RenderSystem,
    pub render_commands: RenderCommandQueue<S>,
    update_systems: Vec<ScheduledUpdateSystem<U>>,
}

/// The names of the update systems, in running order.
pub open spec fn system_names<U>(systems: Seq<ScheduledUpdateSystem<U>>) -> Seq<Seq<char>> {
    systems.map_values(|s: ScheduledUpdateSystem<U>| s.name@)
}

/// Keeping some of a list of update systems with distinct names keeps the
/// names distinct.
proof fn lemma_filter_names_distinct<U>(
    s: Seq<ScheduledUpdateSystem<U>>,
    f: spec_fn(ScheduledUpdateSystem<U>) -> bool,
)
    requires
        system_names(s).no_duplicates(),
    ensures
        system_names(s.filter(f)).no_duplicates(),
    decreases s.len(),
{
    reveal(Seq::filter);
    if s.len() > 0 {
        let d = s.drop_last();
        assert(system_names(d) =~= system_names(s).drop_last());
        assert forall|i: int, j: int|
            0 <= i < system_names(d).len() && 0 <= j < system_names(d).len() && i != j implies system_names(d)[i]
            != system_names(d)[j] by {
            assert(system_names(s)[i] != system_names(s)[j]);
        }
        lemma_filter_names_distinct(d, f);
        let kept = d.filter(f);
        if f(s.last()) {
            let t = kept.push(s.last());
            assert(system_names(t) =~= system_names(kept).push(s.last().name@));
            assert forall|k: int| 0 <= k < kept.len() implies kept[k].name@ != s.last().name@ by {
                assert(kept.contains(kept[k]));
                d.lemma_filter_contains_rev(f, kept[k]);
                let j = choose|j: int| 0 <= j < d.len() && d[j] == kept[k];
                assert(system_names(s)[j] == kept[k].name@);
                assert(system_names(s)[s.len() - 1] == s.last().name@);
            }
            assert forall|i: int, j: int|
                0 <= i < system_names(t).len() && 0 <= j < system_names(t).len() && i != j implies system_names(t)[i]
                != system_names(t)[j] by {
                if i < kept.len() && j < kept.len() {
                    assert(system_names(kept)[i] != system_names(kept)[j]);
                } else if i < kept.len() {
                    assert(system_names(t)[i] == kept[i].name@);
                } else if j < kept.len() {
                    assert(system_names(t)[j] == kept[j].name@);
                }
            }
        }
    }
}

impl<C, U, S> Scheduler<C, U, S> {
    /// No two update systems share a name.
    pub open spec fn wf(&self) -> bool {
        system_names(self.updates()).no_duplicates()
    }

    /// The input system.
    pub closed spec fn input(&self) -> InputSystem<C> {
        self.input_system
    }

    /// The render command queue.
    pub closed spec fn queue(&self) -> RenderCommandQueue<S> {
        self.render_commands
    }

    /// The update systems, in running order.
    pub closed spec fn updates(&self) -> Seq<ScheduledUpdateSystem<U>> {
        self.update_systems@
    }

    /// No key binding, no update system, nothing queued.
    pub fn new() -> (r: Self)
        ensures
            r.input().key_bindings@.len() == 0,
            r.queue().queued().len() == 0,
            r.updates() == Seq::<ScheduledUpdateSystem<U>>::empty(),
            r.wf(),
    {
        assert(system_names(Seq::<ScheduledUpdateSystem<U>>::empty()) =~= Seq::<Seq<char>>::empty());
        Scheduler {
            command_system: CommandSystem,
            input_system: InputSystem::new(),
            render_system: RenderSystem,
            render_commands: RenderCommandQueue::new(),
            update_systems: Vec::new(),
        }
    }

    /// A scheduler with the given input system and nothing else.
    pub fn with_input_system(input_system: InputSystem<C>) -> (r: Self)
        ensures
            r.input() == input_system,
            r.queue().queued().len() == 0,
            r.updates() == Seq::<ScheduledUpdateSystem<U>>::empty(),
            r.wf(),
    {
        assert(system_names(Seq::<ScheduledUpdateSystem<U>>::empty()) =~= Seq::<Seq<char>>::empty());
        Scheduler {
            command_system: CommandSystem,
            input_system,
            render_system: RenderSystem,
            render_commands: RenderCommandQueue::new(),
            update_systems: Vec::new(),
        }
    }

    /// The update systems, in running order.
    pub fn update_systems(&self) -> (r: &Vec<ScheduledUpdateSystem<U>>)
        ensures
            r@ == self.updates(),
    {
        &self.update_systems
    }

    /// Appends `system` under `name`, enabled, unless a system of that name
    /// is there already.
    pub fn add_update_system(&mut self, name: &str, system: U)
        ensures
            system_names(old(self).updates()).contains(name@) ==> final(self).updates() == old(
                self,
            ).updates(),
            !system_names(old(self).updates()).contains(name@) ==> {
                &&& final(self).updates().len() == old(self).updates().len() + 1
                &&& final(self).updates().drop_last() == old(self).updates()
                &&& final(self).updates().last().name@ == name@
                &&& final(self).updates().last().system == system
                &&& final(self).updates().last().enabled
            },
            final(self).input() == old(self).input(),
            final(self).queue() == old(self).queue(),
            old(self).wf() ==> final(self).wf(),
    {
        let key = name.to_owned();
        let mut i: usize = 0;
        while i < self.update_systems.len()
            invariant
                i <= self.updates().len(),
                key@ == name@,
                forall|j: int| 0 <= j < i ==> self.updates()[j].name@ != name@,
            decreases self.updates().len() - i,
        {
            if self.update_systems[i].name == key {
                assert(system_names(self.updates())[i as int] == name@);
                return;
            }
            i = i + 1;
        }
        assert(!system_names(self.updates()).contains(name@));
        let ghost before = self.update_systems@;
        self.update_systems.push(ScheduledUpdateSystem { name: key, system, enabled: true });
        assert(self.update_systems@.drop_last() =~= before);
        proof {
            let names = system_names(self.updates());
            assert(names =~= system_names(before).push(name@));
            if old(self).wf() {
                assert forall|a: int, b: int| 0 <= a < names.len() && 0 <= b < names.len() && a != b implies names[a] != names[b] by {
                    if a < before.len() && b < before.len() {
                        assert(system_names(before)[a] != system_names(before)[b]);
                    } else if a < before.len() {
                        assert(system_names(before)[a] == names[a]);
                        assert(system_names(before).contains(names[a]));
                    } else if b < before.len() {
                        assert(system_names(before)[b] == names[b]);
                        assert(system_names(before).contains(names[b]));
                    }
                }
            }
        }
    }

    /// Removes every update system named `name`; tells whether there was
    /// one.
    pub fn remove_update_system(&mut self, name: &str) -> (r: bool)
        ensures
            final(self).updates() == old(self).updates().filter(
                |s: ScheduledUpdateSystem<U>| s.name@ != name@,
            ),
            r == system_names(old(self).updates()).contains(name@),
            final(self).input() == old(self).input(),
            final(self).queue() == old(self).queue(),
            old(self).wf() ==> final(self).wf(),
    {
        let key = name.to_owned();
        let ghost f = |s: ScheduledUpdateSystem<U>| s.name@ != name@;
        let mut old_systems: Vec<ScheduledUpdateSystem<U>> = Vec::new();
        core::mem::swap(&mut old_systems, &mut self.update_systems);
        let ghost all = old_systems@;
        let before_len = old_systems.len();
        let mut kept: Vec<ScheduledUpdateSystem<U>> = Vec::new();
        let mut found = false;
        while old_systems.len() > 0
            invariant
                key@ == name@,
                f == (|s: ScheduledUpdateSystem<U>| s.name@ != name@),
                all.len() == before_len,
                old_systems@ == all.skip(all.len() - old_systems@.len()),
                old_systems@.len() <= all.len(),
                kept@ == all.take(all.len() - old_systems@.len()).filter(f),
                found == system_names(all.take(all.len() - old_systems@.len())).contains(name@),
            decreases old_systems@.len(),
        {
            let ghost done = (all.len() - old_systems@.len()) as int;
            let s = old_systems.remove(0);
            proof {
                assert(s == all[done]);
                assert(all.take(done + 1) == all.take(done).push(s));
                all.take(done).lemma_filter_push(s, f);
                assert(old_systems@ == all.skip(done + 1));
                assert(system_names(all.take(done + 1)) == system_names(all.take(done)).push(s.name@));
            }
            let ghost names_before = system_names(all.take(done));
            if s.name == key {
                found = true;
                assert(system_names(all.take(done + 1))[done] == name@);
            } else {
                kept.push(s);
                assert forall|x: Seq<char>| names_before.push(s.name@).contains(x) <==> names_before.contains(x) || x == s.name@ by {
                    if names_before.push(s.name@).contains(x) {
                        let k = choose|k: int| 0 <= k < names_before.len() + 1 && #[trigger] names_before.push(s.name@)[k] == x;
                        if k < names_before.len() {
                            assert(names_before[k] == x);
                        }
                    }
                    if names_before.contains(x) {
                        let k = choose|k: int| 0 <= k < names_before.len() && #[trigger] names_before[k] == x;
                        assert(names_before.push(s.name@)[k] == x);
                    }
                    if x == s.name@ {
                        assert(names_before.push(s.name@)[names_before.len() as int] == x);
                    }
                }
            }
        }
        assert(all.take(all.len() as int) == all);
        self.update_systems = kept;
        proof {
            if old(self).wf() {
                lemma_filter_names_distinct(all, f);
            }
        }
        found
    }

    /// Forgets the key bindings and the update systems of the scene.
    pub fn reset_scene_runtime(&mut self)
        ensures
            final(self).input().key_bindings@.len() == 0,
            final(self).updates() == Seq::<ScheduledUpdateSystem<U>>::empty(),
            final(self).queue() == old(self).queue(),
            final(self).wf(),
    {
        self.input_system.reset();
        self.update_systems.clear();
        assert(system_names(self.updates()) =~= Seq::<Seq<char>>::empty());
    }

    /// Binds `command`, known by `command_id`, to `key` and `trigger`.
    pub fn bind_key(&mut self, key: u32, trigger: InputTrigger, command_id: &str, command: C)
        ensures
            final(self).updates() == old(self).updates(),
            final(self).queue() == old(self).queue(),
            (exists|i: int|
                0 <= i < old(self).input().key_bindings@.len()
                    && crate::system::input_system::same_binding(
                    #[trigger] old(self).input().key_bindings@[i],
                    key,
                    trigger,
                    command_id@,
                )) ==> final(self).input().key_bindings@
                == old(self).input().key_bindings@,
            !(exists|i: int|
                0 <= i < old(self).input().key_bindings@.len()
                    && crate::system::input_system::same_binding(
                    #[trigger] old(self).input().key_bindings@[i],
                    key,
                    trigger,
                    command_id@,
                )) ==> final(self).input().key_bindings@.len()
                == old(self).input().key_bindings@.len() + 1
                && final(self).input().key_bindings@.drop_last()
                == old(self).input().key_bindings@
                && crate::system::input_system::same_binding(
                final(self).input().key_bindings@.last(),
                key,
                trigger,
                command_id@,
            ) && final(self).input().key_bindings@.last().command == command,
    {
        self.input_system.bind(key, trigger, command_id, command);
    }

    /// Runs the enabled update systems in order, each on the context that
    /// the one before left, stopping at the first that fails and handing
    /// its error back; the systems after it do not run. The systems keep
    /// their names, order and flags, and the context stays runnable.
    pub fn run_update_stage<Ctx>(&mut self, context: &mut Ctx) -> (r: Result<(), CommandError>)
        where U: UpdateSystem<Ctx>,
        requires
            U::runnable(*old(context)),
        ensures
            U::runnable(*final(context)),
            system_names(final(self).updates()) == system_names(old(self).updates()),
            system_flags(final(self).updates()) == system_flags(old(self).updates()),
            final(self).input() == old(self).input(),
            final(self).queue() == old(self).queue(),
            old(self).wf() ==> final(self).wf(),
            (forall|i: int| 0 <= i < old(self).updates().len() ==> !(#[trigger] old(self).updates()[i]).enabled)
                ==> r is Ok,
            stage_ran(old(self).updates(), final(self).updates(), *old(context), *final(context), r),
    {
        let n = self.update_systems.len();
        let mut i: usize = 0;
        let ghost mut contexts: Seq<Ctx> = seq![*context];
        while i < n
            invariant
                n == self.updates().len(),
                n == old(self).updates().len(),
                i <= n,
                U::runnable(*context),
                system_names(self.updates()) == system_names(old(self).updates()),
                system_flags(self.updates()) == system_flags(old(self).updates()),
                self.input() == old(self).input(),
                self.queue() == old(self).queue(),
                (forall|k: int| 0 <= k < old(self).updates().len() ==> !(#[trigger] old(self).updates()[k]).enabled)
                    ==> forall|k: int| 0 <= k < n ==> !(#[trigger] self.updates()[k]).enabled,
                contexts.len() == i + 1,
                contexts[0] == *old(context),
                contexts[i as int] == *context,
                forall|j: int| 0 <= j < i ==> #[trigger] stage_step(
                    old(self).updates()[j],
                    self.updates()[j],
                    contexts[j],
                    contexts[j + 1],
                ),
                forall|j: int| i <= j < n ==> #[trigger] self.updates()[j] == old(self).updates()[j],
            decreases n - i,
        {
            proof {
                assert(system_flags(self.updates())[i as int] == self.updates()[i as int].enabled);
                assert(system_flags(old(self).updates())[i as int] == old(self).updates()[i as int].enabled);
            }
            let ghost before = self.update_systems@;
            let ghost ctx_before = *context;
            let ghost prev = contexts;
            if self.update_systems[i].enabled {
                let result = self.update_systems[i].system.update(context);
                proof {
                    assert(system_names(self.updates()) =~= system_names(before));
                    assert(system_flags(self.updates()) =~= system_flags(before));
                    assert(self.updates()[i as int].name == before[i as int].name);
                    assert(self.updates()[i as int].enabled == before[i as int].enabled);
                    assert forall|j: int| 0 <= j < n && j != i implies #[trigger] self.updates()[j] == before[j] by {}
                    assert(U::ran(before[i as int].system, ctx_before, self.updates()[i as int].system, *context, result));
                }
                if result.is_err() {
                    proof {
                        assert(stage_trace(old(self).updates(), self.updates(), contexts, i as int, *context, result));
                    }
                    return result;
                }
                proof {
                    contexts = contexts.push(*context);
                    assert forall|j: int| 0 <= j < i + 1 implies #[trigger] stage_step(
                        old(self).updates()[j],
                        self.updates()[j],
                        contexts[j],
                        contexts[j + 1],
                    ) by {
                        if j < i {
                            assert(stage_step(old(self).updates()[j], before[j], prev[j], prev[j + 1]));
                            assert(contexts[j] == prev[j]);
                            assert(contexts[j + 1] == prev[j + 1]);
                            assert(self.updates()[j] == before[j]);
                        } else {
                            assert(contexts[j] == ctx_before);
                            assert(contexts[j + 1] == *context);
                            assert(old(self).updates()[j] == before[j]);
                            assert(result is Ok);
                            let unit: () = result->Ok_0;
                            assert(unit == ());
                            assert(result == Ok::<(), CommandError>(()));
                        }
                    }
                }
            } else {
                proof {
                    contexts = contexts.push(*context);
                    assert forall|j: int| 0 <= j < i + 1 implies #[trigger] stage_step(
                        old(self).updates()[j],
                        self.updates()[j],
                        contexts[j],
                        contexts[j + 1],
                    ) by {
                        if j < i {
                            assert(stage_step(old(self).updates()[j], before[j], prev[j], prev[j + 1]));
                            assert(contexts[j] == prev[j]);
                            assert(contexts[j + 1] == prev[j + 1]);
                            assert(self.updates()[j] == before[j]);
                        } else {
                            assert(contexts[j] == ctx_before);
                            assert(contexts[j + 1] == *context);
                            assert(old(self).updates()[j] == before[j]);
                        }
                    }
                }
            }
            i = i + 1;
        }
        proof {
            assert(stage_trace(old(self).updates(), self.updates(), contexts, n as int, *context, Ok(())));
        }
        Ok(())
    }

}

impl<C, U, S> Default for Scheduler<C, U, S> {
    /// No key binding, no update system, nothing queued.
    fn default() -> (r: Self)
        ensures
            r.input().key_bindings@.len() == 0,
            r.queue().queued().len() == 0,
            r.updates() == Seq::<ScheduledUpdateSystem<U>>::empty(),
            r.wf(),
    {
        Scheduler::new()
    }
}

} // verus!
