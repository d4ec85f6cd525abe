use vstd::prelude::*;

verus! {

/// The display name of an entity.
#[derive(Clone, Debug, PartialEq, Eq)]
pub struct Name {
    pub value: String,
}

impl Name {
    /// A name holding a copy of `name`.
    pub fn new(name: &str) -> (r: Self)
        ensures
            r.value@ == name@,
    {
        Name { value: name.to_owned() }
    }
}

} // verus!
