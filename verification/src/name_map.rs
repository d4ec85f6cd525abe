use vstd::prelude::*;

verus! {

/// No two entries share a name.
pub open spec fn names_distinct<V>(e: Seq<(String, V)>) -> bool {
    forall|i: int, j: int|
        0 <= i < e.len() && 0 <= j < e.len() && i != j ==> (#[trigger] e[i]).0@ != (#[trigger] e[j]).0@
}

/// The value that each name of the entries has.
pub open spec fn entries_map<V>(e: Seq<(String, V)>) -> Map<Seq<char>, V> {
    Map::new(
        |k: Seq<char>| exists|i: int| 0 <= i < e.len() && e[i].0@ == k,
        |k: Seq<char>| e[choose|i: int| 0 <= i < e.len() && e[i].0@ == k].1,
    )
}

/// The entry at `i` gives its name its value.
pub proof fn lemma_lookup<V>(e: Seq<(String, V)>, k: Seq<char>, i: int)
    requires
        names_distinct(e),
        0 <= i < e.len(),
        e[i].0@ == k,
    ensures
        entries_map(e).dom().contains(k),
        entries_map(e)[k] == e[i].1,
{
    let j = choose|j: int| 0 <= j < e.len() && e[j].0@ == k;
    assert(e[j].0@ == k);
    if j != i {
        assert(e[i].0@ != e[j].0@);
    }
}

/// Replacing the entry at `i` by one of the same name changes the value of
/// that name only.
pub proof fn lemma_update<V>(e: Seq<(String, V)>, i: int, entry: (String, V))
    requires
        names_distinct(e),
        0 <= i < e.len(),
        entry.0@ == e[i].0@,
    ensures
        names_distinct(e.update(i, entry)),
        entries_map(e.update(i, entry)) == entries_map(e).insert(entry.0@, entry.1),
{
    let n = e.update(i, entry);
    assert forall|a: int, b: int| 0 <= a < n.len() && 0 <= b < n.len() && a != b implies (#[trigger] n[a]).0@
        != (#[trigger] n[b]).0@ by {
        assert(e[a].0@ != e[b].0@);
    }
    let m = entries_map(e).insert(entry.0@, entry.1);
    assert forall|k: Seq<char>| #[trigger] entries_map(n).dom().contains(k) implies m.dom().contains(k)
        && entries_map(n)[k] == m[k] by {
        let j = choose|j: int| 0 <= j < n.len() && n[j].0@ == k;
        lemma_lookup(n, k, j);
        if j != i {
            lemma_lookup(e, k, j);
        }
    }
    assert forall|k: Seq<char>| #[trigger] m.dom().contains(k) implies entries_map(n).dom().contains(k) by {
        if k != entry.0@ {
            let j = choose|j: int| 0 <= j < e.len() && e[j].0@ == k;
            lemma_lookup(n, k, j);
        } else {
            lemma_lookup(n, k, i);
        }
    }
    assert(entries_map(n) =~= m);
}

/// Appending an entry with a new name gives that name its value.
pub proof fn lemma_push<V>(e: Seq<(String, V)>, entry: (String, V))
    requires
        names_distinct(e),
        forall|j: int| 0 <= j < e.len() ==> e[j].0@ != entry.0@,
    ensures
        names_distinct(e.push(entry)),
        entries_map(e.push(entry)) == entries_map(e).insert(entry.0@, entry.1),
{
    let n = e.push(entry);
    let last = e.len() as int;
    assert forall|a: int, b: int| 0 <= a < n.len() && 0 <= b < n.len() && a != b implies (#[trigger] n[a]).0@
        != (#[trigger] n[b]).0@ by {
        if a < last && b < last {
            assert(e[a].0@ != e[b].0@);
        } else if a < last {
            assert(e[a].0@ != entry.0@);
        } else if b < last {
            assert(e[b].0@ != entry.0@);
        }
    }
    let m = entries_map(e).insert(entry.0@, entry.1);
    assert forall|k: Seq<char>| #[trigger] entries_map(n).dom().contains(k) implies m.dom().contains(k)
        && entries_map(n)[k] == m[k] by {
        let j = choose|j: int| 0 <= j < n.len() && n[j].0@ == k;
        lemma_lookup(n, k, j);
        if j != last {
            lemma_lookup(e, k, j);
        }
    }
    assert forall|k: Seq<char>| #[trigger] m.dom().contains(k) implies entries_map(n).dom().contains(k) by {
        if k != entry.0@ {
            let j = choose|j: int| 0 <= j < e.len() && e[j].0@ == k;
            lemma_lookup(n, k, j);
        } else {
            lemma_lookup(n, k, last);
        }
    }
    assert(entries_map(n) =~= m);
}

/// A table from names to values in which each name occurs at most once.
#[derive(Debug)]
pub struct NameMap<V> {
    entries: Vec<(String, V)>,
}

impl<V> NameMap<V> {
    /// The entries, in insertion order.
    pub closed spec fn entries(&self) -> Seq<(String, V)> {
        self.entries@
    }

    /// No name occurs twice.
    pub open spec fn wf(&self) -> bool {
        names_distinct(self.entries())
    }

    /// The value of each name.
    pub open spec fn map(&self) -> Map<Seq<char>, V> {
        entries_map(self.entries())
    }

    /// A table with no name.
    pub fn new() -> (r: Self)
        ensures
            r.wf(),
            r.map() == Map::<Seq<char>, V>::empty(),
    {
        let r = NameMap { entries: Vec::new() };
        assert(r.map() =~= Map::<Seq<char>, V>::empty());
        r
    }

    /// The number of names.
    pub fn len(&self) -> (r: usize)
        ensures
            r == self.entries().len(),
    {
        self.entries.len()
    }

    /// The position of the entry named `name`.
    fn position(&self, name: &String) -> (r: Option<usize>)
        requires
            self.wf(),
        ensures
            match r {
                Some(i) => i < self.entries().len() && self.entries()[i as int].0@ == name@,
                None => forall|j: int|
                    0 <= j < self.entries().len() ==> self.entries()[j].0@ != name@,
            },
    {
        let mut i: usize = 0;
        while i < self.entries.len()
            invariant
                i <= self.entries().len(),
                forall|j: int| 0 <= j < i ==> self.entries()[j].0@ != name@,
            decreases self.entries().len() - i,
        {
            if self.entries[i].0 == *name {
                return Some(i);
            }
            i = i + 1;
        }
        None
    }

    /// Gives `name` the value `value`, replacing the value it had.
    pub fn insert(&mut self, name: &str, value: V)
        requires
            old(self).wf(),
        ensures
            final(self).wf(),
            final(self).map() == old(self).map().insert(name@, value),
    {
        let key = name.to_owned();
        match self.position(&key) {
            Some(i) => {
                proof {
                    lemma_update(self.entries@, i as int, (key, value));
                }
                self.entries.set(i, (key, value));
            },
            None => {
                proof {
                    lemma_push(self.entries@, (key, value));
                }
                self.entries.push((key, value));
            },
        }
    }

    /// The value of `name`, if it has one.
    pub fn get(&self, name: &str) -> (r: Option<&V>)
        requires
            self.wf(),
        ensures
            r == (if self.map().dom().contains(name@) {
                Some(&self.map()[name@])
            } else {
                None
            }),
    {
        let key = name.to_owned();
        match self.position(&key) {
            Some(i) => {
                proof {
                    lemma_lookup(self.entries@, name@, i as int);
                }
                Some(&self.entries[i].1)
            },
            None => None,
        }
    }

    /// The value of `name`, if it has one, to be changed in place.
    pub fn get_mut(&mut self, name: &str) -> (r: Option<&mut V>)
        requires
            old(self).wf(),
        ensures
            r is Some == old(self).map().dom().contains(name@),
            r is None ==> *final(self) == *old(self),
            r is Some ==> {
                &&& *r.unwrap() == old(self).map()[name@]
                &&& final(self).wf()
                &&& final(self).map() == old(self).map().insert(name@, *final(r.unwrap()))
            },
    {
        let key = name.to_owned();
        match self.position(&key) {
            Some(i) => {
                proof {
                    lemma_lookup(self.entries@, name@, i as int);
                }
                let entry = &mut self.entries[i];
                let value = &mut entry.1;
                proof {
                    lemma_update(old(self).entries@, i as int, (entry.0, *final(value)));
                }
                Some(value)
            },
            None => None,
        }
    }

    /// Whether `name` has a value.
    pub fn contains_key(&self, name: &str) -> (r: bool)
        requires
            self.wf(),
        ensures
            r == self.map().dom().contains(name@),
    {
        let key = name.to_owned();
        match self.position(&key) {
            Some(i) => {
                proof {
                    lemma_lookup(self.entries@, name@, i as int);
                }
                true
            },
            None => false,
        }
    }
}

} // verus!
