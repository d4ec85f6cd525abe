use vstd::prelude::*;

verus! {

/// Identifier of an entity. Identifiers are handed out in increasing order
/// by the registry and are never reused.
#[derive(Clone, Copy, Debug, PartialEq, Eq, Hash, Structural)]
pub struct EntityId(pub u64);

impl EntityId {
    /// The numeric value of the identifier.
    pub fn value(self) -> (r: u64)
        ensures
            r == self.0,
    {
        self.0
    }

    /// Builds the identifier with the given number.
    pub(crate) fn from_index(index: u64) -> (r: Self)
        ensures
            r.0 == index,
    {
        EntityId(index)
    }

    /// The position of the entity in the sparse tables: its numeric value.
    pub fn index(self) -> (r: u64)
        ensures
            r == self.0,
    {
        self.0
    }
}

} // verus!
