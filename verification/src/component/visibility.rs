use vstd::prelude::*;

verus! {

/// Whether an entity is drawn.
#[derive(Clone, Copy, Debug, PartialEq, Eq, Structural)]
pub struct Visibility {
    pub is_visible: bool,
}

impl Default for Visibility {
    /// Entities are visible unless told otherwise.
    fn default() -> (r: Self)
        ensures
            r.is_visible,
    {
        Visibility { is_visible: true }
    }
}

} // verus!
