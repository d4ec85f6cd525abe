use vstd::prelude::*;

use crate::input::{ButtonState, Input};

verus! {

/// When a key binding fires: on the frame the key goes down, on every frame
/// it is held down, or on the frame it goes up.
#[derive(Clone, Copy, Debug, PartialEq, Eq, Structural)]
pub enum InputTrigger {
    Pressed,
    Down,
    Released,
}

/// A key, the moment it fires at, and the command it fires. Two bindings
/// are the same when key, trigger and command identifier agree.
#[derive(Clone, Debug)]
pub struct KeyBinding<C> {
    pub key: u32,
    pub trigger: InputTrigger,
    pub command_id: String,
    pub command: C,
}

/// The binding fires for the given key state.
pub open spec fn fires<C>(binding: KeyBinding<C>, keys: ButtonState) -> bool {
    match binding.trigger {
        InputTrigger::Pressed => keys.pressed.contains(binding.key),
        InputTrigger::Down => keys.down.contains(binding.key),
        InputTrigger::Released => keys.released.contains(binding.key),
    }
}

/// The binding is the same as one with this key, trigger and command
/// identifier.
pub open spec fn same_binding<C>(binding: KeyBinding<C>, key: u32, trigger: InputTrigger, command_id: Seq<char>) -> bool {
    binding.key == key && binding.trigger == trigger && binding.command_id@ == command_id
}

/// A binding on `Pressed` fires exactly on the frame its key went down, one
/// on `Down` on every frame its key is held, and one on `Released` exactly
/// on the frame its key went up.
pub proof fn binding_fires_on_its_trigger<C>(binding: KeyBinding<C>, keys: ButtonState)
    ensures
        binding.trigger == InputTrigger::Pressed ==> (fires(binding, keys) <==> keys.pressed.contains(
            binding.key,
        )),
        binding.trigger == InputTrigger::Down ==> (fires(binding, keys) <==> keys.down.contains(
            binding.key,
        )),
        binding.trigger == InputTrigger::Released ==> (fires(binding, keys) <==> keys.released.contains(
            binding.key,
        )),
{
}

/// A key held over from an earlier frame, with no transition since, fires
/// only the bindings on `Down`: a `Pressed` binding fires once per press,
/// not again on every frame the key stays down.
pub proof fn held_key_fires_only_down_bindings<C>(bindings: Seq<KeyBinding<C>>, keys: ButtonState)
    requires
        keys.pressed.is_empty(),
        keys.released.is_empty(),
    ensures
        bindings.filter(|b: KeyBinding<C>| fires(b, keys)) == bindings.filter(
            |b: KeyBinding<C>| b.trigger == InputTrigger::Down && keys.down.contains(b.key),
        ),
{
    let f = |b: KeyBinding<C>| fires(b, keys);
    let g = |b: KeyBinding<C>| b.trigger == InputTrigger::Down && keys.down.contains(b.key);
    assert forall|b: KeyBinding<C>| #[trigger] f(b) == g(b) by {
        assert(!keys.pressed.contains(b.key));
        assert(!keys.released.contains(b.key));
    }
    assert(f =~= g);
}

/// A binding is the same as another only if key, trigger and command
/// identifier all agree: bindings that differ in any of them are kept
/// apart.
pub proof fn bindings_differing_are_distinct<C>(
    binding: KeyBinding<C>,
    key: u32,
    trigger: InputTrigger,
    command_id: Seq<char>,
)
    ensures
        same_binding(binding, key, trigger, command_id) <==> (binding.key == key && binding.trigger
            == trigger && binding.command_id@ == command_id),
        binding.key != key ==> !same_binding(binding, key, trigger, command_id),
{
}

/// Turns key state into commands through key bindings. `C` is the command
/// type.
#[derive(Clone, Debug)]
pub struct InputSystem<C> {
    pub key_bindings: Vec<KeyBinding<C>>,
}

impl<C> InputSystem<C> {
    /// No binding.
    pub fn new() -> (r: Self)
        ensures
            r.key_bindings@ == Seq::<KeyBinding<C>>::empty(),
    {
        InputSystem { key_bindings: Vec::new() }
    }

    /// Forgets every binding.
    pub fn reset(&mut self)
        ensures
            final(self).key_bindings@ == Seq::<KeyBinding<C>>::empty(),
    {
        self.key_bindings.clear();
    }

    /// Binds `command`, known by `command_id`, to `key` and `trigger`,
    /// unless the same binding exists already.
    pub fn bind(&mut self, key: u32, trigger: InputTrigger, command_id: &str, command: C)
        ensures
            (exists|i: int|
                0 <= i < old(self).key_bindings@.len() && same_binding(
                    #[trigger] old(self).key_bindings@[i],
                    key,
                    trigger,
                    command_id@,
                )) ==> final(self).key_bindings@ == old(self).key_bindings@,
            !(exists|i: int|
                0 <= i < old(self).key_bindings@.len() && same_binding(
                    #[trigger] old(self).key_bindings@[i],
                    key,
                    trigger,
                    command_id@,
                )) ==> final(self).key_bindings@.len() == old(self).key_bindings@.len() + 1
                && final(self).key_bindings@.drop_last() == old(self).key_bindings@
                && same_binding(final(self).key_bindings@.last(), key, trigger, command_id@)
                && final(self).key_bindings@.last().command == command,
            (forall|i: int|
                0 <= i < old(self).key_bindings@.len() ==> (#[trigger] old(self).key_bindings@[i]).key
                    != key || old(self).key_bindings@[i].trigger != trigger
                    || old(self).key_bindings@[i].command_id@ != command_id@) ==> {
                &&& final(self).key_bindings@.len() == old(self).key_bindings@.len() + 1
                &&& final(self).key_bindings@.drop_last() == old(self).key_bindings@
                &&& final(self).key_bindings@.last().key == key
                &&& final(self).key_bindings@.last().trigger == trigger
                &&& final(self).key_bindings@.last().command_id@ == command_id@
                &&& final(self).key_bindings@.last().command == command
            },
            (exists|i: int|
                0 <= i < old(self).key_bindings@.len() && (#[trigger] old(self).key_bindings@[i]).key
                    == key && old(self).key_bindings@[i].trigger == trigger
                    && old(self).key_bindings@[i].command_id@ == command_id@)
                ==> final(self).key_bindings@ == old(self).key_bindings@,
    {
        let id = command_id.to_owned();
        let mut i: usize = 0;
        while i < self.key_bindings.len()
            invariant
                i <= self.key_bindings@.len(),
                id@ == command_id@,
                forall|j: int| 0 <= j < i ==> !same_binding(#[trigger] self.key_bindings@[j], key, trigger, command_id@),
            decreases self.key_bindings@.len() - i,
        {
            let b = &self.key_bindings[i];
            if b.key == key && b.trigger == trigger && b.command_id == id {
                assert(same_binding(self.key_bindings@[i as int], key, trigger, command_id@));
                return;
            }
            i = i + 1;
        }
        let ghost before = self.key_bindings@;
        self.key_bindings.push(KeyBinding { key, trigger, command_id: id, command });
        assert(self.key_bindings@.drop_last() =~= before);
    }

    /// The commands of the bindings that fire for the key state of `input`,
    /// in binding order.
    pub fn update(&self, input: &Input) -> (r: Vec<&C>)
        ensures
            r@.len() == self.key_bindings@.filter(|b: KeyBinding<C>| fires(b, input.keys())).len(),
            forall|i: int|
                0 <= i < r@.len() ==> *(#[trigger] r@[i]) == self.key_bindings@.filter(
                    |b: KeyBinding<C>| fires(b, input.keys()),
                )[i].command,
    {
        let ghost all = self.key_bindings@;
        let ghost f = |b: KeyBinding<C>| fires(b, input.keys());
        let mut r: Vec<&C> = Vec::new();
        let mut i: usize = 0;
        while i < self.key_bindings.len()
            invariant
                all == self.key_bindings@,
                f == (|b: KeyBinding<C>| fires(b, input.keys())),
                i <= all.len(),
                r@.len() == all.take(i as int).filter(f).len(),
                forall|k: int| 0 <= k < r@.len() ==> *(#[trigger] r@[k]) == all.take(i as int).filter(f)[k].command,
            decreases all.len() - i,
        {
            let b = &self.key_bindings[i];
            proof {
                assert(all.take(i + 1) == all.take(i as int).push(all[i as int]));
                all.take(i as int).lemma_filter_push(all[i as int], f);
            }
            let triggered = match b.trigger {
                InputTrigger::Pressed => input.key_pressed(b.key),
                InputTrigger::Down => input.key_down(b.key),
                InputTrigger::Released => input.key_released(b.key),
            };
            let ghost prev = r@;
            if triggered {
                r.push(&b.command);
                assert forall|k: int| 0 <= k < r@.len() implies *(#[trigger] r@[k]) == all.take(i + 1).filter(f)[k].command by {
                    if k < prev.len() {
                        assert(r@[k] == prev[k]);
                    }
                }
            }
            i = i + 1;
        }
        assert(all.take(all.len() as int) == all);
        r
    }
}

impl<C> Default for InputSystem<C> {
    /// No binding.
    fn default() -> (r: Self)
        ensures
            r.key_bindings@ == Seq::<KeyBinding<C>>::empty(),
    {
        InputSystem::new()
    }
}

} // verus!
