use vstd::prelude::*;

verus! {

/// The labels of an entity, in the order they were added.
#[derive(Clone, Debug, PartialEq, Eq)]
pub struct Tags {
    pub values: Vec<String>,
}

/// The labels as character sequences.
pub open spec fn tag_texts(values: Seq<String>) -> Seq<Seq<char>> {
    values.map_values(|s: String| s@)
}

/// Position of the first label equal to `tag`, if any.
pub open spec fn first_position(texts: Seq<Seq<char>>, tag: Seq<char>) -> Option<int> {
    if exists|i: int| 0 <= i < texts.len() && texts[i] == tag {
        Some(choose|i: int| 0 <= i < texts.len() && texts[i] == tag && forall|j: int| 0 <= j < i ==> texts[j] != tag)
    } else {
        None
    }
}

impl Tags {
    /// The labels as character sequences.
    pub open spec fn texts(&self) -> Seq<Seq<char>> {
        tag_texts(self.values@)
    }

    /// Tags holding copies of `names`, in order.
    pub fn new<const N: usize>(names: [&str; N]) -> (r: Self)
        ensures
            r.texts() == names@.map_values(|s: &str| s@),
    {
        let mut values: Vec<String> = Vec::new();
        let mut i: usize = 0;
        while i < N
            invariant
                i <= N,
                N == names@.len(),
                tag_texts(values@) == names@.take(i as int).map_values(|s: &str| s@),
            decreases N - i,
        {
            let ghost prev = values@;
            let name: &str = names[i];
            let owned = name.to_owned();
            values.push(owned);
            assert(tag_texts(values@) =~= tag_texts(prev).push(owned@));
            assert(names@.take(i + 1) =~= names@.take(i as int).push(names@[i as int]));
            assert(tag_texts(values@) =~= names@.take(i + 1).map_values(|s: &str| s@));
            i = i + 1;
        }
        assert(names@.take(N as int) == names@);
        Tags { values }
    }

    /// The position of the first label equal to `tag`.
    fn position(&self, tag: &String) -> (r: Option<usize>)
        ensures
            match r {
                Some(i) => i < self.texts().len() && self.texts()[i as int] == tag@ && forall|j: int|
                    0 <= j < i ==> self.texts()[j] != tag@,
                None => forall|j: int| 0 <= j < self.texts().len() ==> self.texts()[j] != tag@,
            },
    {
        let mut i: usize = 0;
        while i < self.values.len()
            invariant
                i <= self.values@.len(),
                forall|j: int| 0 <= j < i ==> self.texts()[j] != tag@,
            decreases self.values@.len() - i,
        {
            if self.values[i] == *tag {
                return Some(i);
            }
            i = i + 1;
        }
        None
    }

    /// Whether some label equals `tag`.
    pub fn contains(&self, tag: &str) -> (r: bool)
        ensures
            r == self.texts().contains(tag@),
    {
        let owned = tag.to_owned();
        match self.position(&owned) {
            Some(i) => {
                assert(self.texts()[i as int] == tag@);
                true
            },
            None => false,
        }
    }

    /// Appends `tag` unless some label already equals it; tells whether it
    /// was appended.
    pub fn add(&mut self, tag: &str) -> (r: bool)
        ensures
            r == !old(self).texts().contains(tag@),
            r ==> final(self).texts() == old(self).texts().push(tag@),
            !r ==> final(self).texts() == old(self).texts(),
    {
        if self.contains(tag) {
            return false;
        }
        self.values.push(tag.to_owned());
        assert(final(self).texts() == old(self).texts().push(tag@)) by {
            assert(tag_texts(self.values@) =~= tag_texts(old(self).values@).push(tag@));
        }
        true
    }

    /// Removes the first label equal to `tag`; tells whether there was one.
    pub fn remove(&mut self, tag: &str) -> (r: bool)
        ensures
            r == old(self).texts().contains(tag@),
            !r ==> final(self).texts() == old(self).texts(),
            r ==> exists|i: int|
                0 <= i < old(self).texts().len() && old(self).texts()[i] == tag@ && (forall|j: int|
                    0 <= j < i ==> old(self).texts()[j] != tag@) && final(self).texts()
                    == old(self).texts().remove(i),
    {
        let owned = tag.to_owned();
        match self.position(&owned) {
            Some(i) => {
                let ghost before = self.texts();
                self.values.remove(i);
                assert(self.texts() =~= before.remove(i as int));
                assert(before[i as int] == tag@);
                true
            },
            None => false,
        }
    }
}

/// Adding a label that the tags do not hold and then removing it gives the
/// labels back as they were: the label can only be found where it was
/// appended.
pub proof fn add_then_remove_restores(texts: Seq<Seq<char>>, tag: Seq<char>, i: int)
    requires
        !texts.contains(tag),
        0 <= i < texts.push(tag).len(),
        texts.push(tag)[i] == tag,
    ensures
        i == texts.len(),
        texts.push(tag).remove(i) == texts,
{
    if i < texts.len() {
        assert(texts[i] == tag);
    }
    assert(texts.push(tag).remove(i) =~= texts);
}

} // verus!
