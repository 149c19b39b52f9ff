//! The per-actor recipient registry: a mapping from a logical name to an
//! address handle.
//!
//! An address itself is an opaque capability of the surrounding framework;
//! the registry holds a plain numeric handle for it, and the embedding code
//! keeps the handle-to-address table. Registration is last-write-wins: a
//! name collision silently overwrites the previous entry.

use vstd::prelude::*;

verus! {

/// Model of the registry entry list as a map, later entries winning.
pub open spec fn entries_map(es: Seq<(String, u64)>) -> Map<Seq<char>, u64>
    decreases es,
{
    if es.len() == 0 {
        Map::empty()
    } else {
        entries_map(es.drop_last()).insert(es.last().0@, es.last().1)
    }
}

/// The names of the entry list are pairwise distinct.
pub open spec fn names_unique(es: Seq<(String, u64)>) -> bool {
    forall|i: int, j: int| 0 <= i < j < es.len() ==> es[i].0@ != es[j].0@
}

/// Membership and lookup of `entries_map`, stated entry by entry.
proof fn lemma_entries_map(es: Seq<(String, u64)>)
    ensures
        forall|k: Seq<char>|
            #[trigger] entries_map(es).contains_key(k) ==> exists|i: int|
                0 <= i < es.len() && #[trigger] es[i].0@ == k,
        forall|i: int| 0 <= i < es.len() ==> entries_map(es).contains_key(#[trigger] es[i].0@),
        names_unique(es) ==> forall|i: int|
            0 <= i < es.len() ==> entries_map(es)[#[trigger] es[i].0@] == es[i].1,
    decreases es.len(),
{
    if es.len() > 0 {
        let pre = es.drop_last();
        lemma_entries_map(pre);
        assert(forall|i: int| 0 <= i < pre.len() ==> #[trigger] pre[i] == es[i]);
        assert(es.last() == es[es.len() - 1]);
        assert forall|k: Seq<char>| #[trigger] entries_map(es).contains_key(k) implies exists|i: int|
            0 <= i < es.len() && #[trigger] es[i].0@ == k by {
            if k == es.last().0@ {
                assert(es[es.len() - 1].0@ == k);
            } else {
                assert(entries_map(pre).contains_key(k));
                let i = choose|i: int| 0 <= i < pre.len() && #[trigger] pre[i].0@ == k;
                assert(es[i].0@ == k);
            }
        }
        assert forall|i: int|
            0 <= i < es.len() implies entries_map(es).contains_key(
            #[trigger] es[i].0@,
        ) by {
            if i < es.len() - 1 {
                assert(pre[i] == es[i]);
                assert(entries_map(pre).contains_key(pre[i].0@));
            }
        }
        if names_unique(es) {
            assert(names_unique(pre));
            assert forall|i: int|
                0 <= i < es.len() implies entries_map(es)[#[trigger] es[i].0@] == es[i].1 by {
                if i < es.len() - 1 {
                    assert(pre[i] == es[i]);
                    assert(entries_map(pre)[pre[i].0@] == pre[i].1);
                    assert(es[i].0@ != es[es.len() - 1].0@);
                }
            }
        }
    }
}

/// Updating an entry in place is an overwrite of its name in the map model.
proof fn lemma_entries_map_update(es: Seq<(String, u64)>, i: int, p: (String, u64))
    requires
        0 <= i < es.len(),
        names_unique(es),
        p.0@ == es[i].0@,
    ensures
        entries_map(es.update(i, p)) == entries_map(es).insert(p.0@, p.1),
    decreases es.len(),
{
    if i == es.len() - 1 {
        assert(es.update(i, p).drop_last() =~= es.drop_last());
        assert(es.update(i, p).last() == p);
        assert(entries_map(es.drop_last()).insert(p.0@, p.1) =~= entries_map(
            es.drop_last(),
        ).insert(es[i].0@, es[i].1).insert(p.0@, p.1));
    } else {
        lemma_entries_map_update(es.drop_last(), i, p);
        assert(es.update(i, p).drop_last() =~= es.drop_last().update(i, p));
        assert(es.update(i, p).last() == es.last());
        assert(es.last().0@ != p.0@);
        assert(entries_map(es.drop_last()).insert(p.0@, p.1).insert(
            es.last().0@,
            es.last().1,
        ) =~= entries_map(es.drop_last()).insert(es.last().0@, es.last().1).insert(
            p.0@,
            p.1,
        ));
    }
}

/// The per-actor mapping from a logical recipient name to an address handle.
pub struct Registry {
    entries: Vec<(String, u64)>,
}

impl Registry {
    /// The registry as a map from name to address handle.
    pub closed spec fn view(&self) -> Map<Seq<char>, u64> {
        entries_map(self.entries@)
    }

    /// Internal invariant: stored names are pairwise distinct.
    pub closed spec fn wf(&self) -> bool {
        names_unique(self.entries@)
    }

    /// An empty registry.
    pub fn new() -> (r: Registry)
        ensures
            r.wf(),
            r@ == Map::<Seq<char>, u64>::empty(),
    {
        Registry { entries: Vec::new() }
    }

    /// Finds the position of a name, if it is registered.
    fn position(&self, name: &String) -> (r: Option<usize>)
        ensures
            match r {
                Some(i) => 0 <= i < self.entries@.len() && self.entries@[i as int].0@ == name@,
                None => forall|j: int|
                    0 <= j < self.entries@.len() ==> (#[trigger] self.entries@[j].0)@ != name@,
            },
    {
        let mut i: usize = 0;
        while i < self.entries.len()
            invariant
                0 <= i <= self.entries@.len(),
                forall|j: int| 0 <= j < i ==> (#[trigger] self.entries@[j].0)@ != name@,
            decreases self.entries@.len() - i,
        {
            if self.entries[i].0 == *name {
                return Some(i);
            }
            i += 1;
        }
        None
    }

    /// Looks a name up; `None` exactly when the name is not registered.
    pub fn get(&self, name: &String) -> (r: Option<u64>)
        requires
            self.wf(),
        ensures
            r == if self@.contains_key(name@) {
                Some(self@[name@])
            } else {
                None::<u64>
            },
    {
        proof {
            lemma_entries_map(self.entries@);
        }
        match self.position(name) {
            Some(i) => Some(self.entries[i].1),
            None => {
                proof {
                    if self@.contains_key(name@) {
                        let i = choose|i: int|
                            0 <= i < self.entries@.len() && #[trigger] self.entries@[i].0@
                                == name@;
                        assert(false);
                    }
                }
                None
            },
        }
    }

    /// Registers a name, overwriting silently: the result is the previous
    /// handle of the name, if the name was already registered.
    pub fn insert(&mut self, name: String, addr: u64) -> (r: Option<u64>)
        requires
            old(self).wf(),
        ensures
            final(self).wf(),
            final(self)@ == old(self)@.insert(name@, addr),
            r == if old(self)@.contains_key(name@) {
                Some(old(self)@[name@])
            } else {
                None::<u64>
            },
    {
        proof {
            lemma_entries_map(self.entries@);
        }
        match self.position(&name) {
            Some(i) => {
                let prev = self.entries[i].1;
                let ghost es = self.entries@;
                proof {
                    lemma_entries_map_update(es, i as int, (name, addr));
                }
                self.entries[i] = (name, addr);
                proof {
                    assert(forall|l: int, m: int|
                        0 <= l < m < self.entries@.len() ==> es[l].0@ != es[m].0@);
                }
                Some(prev)
            },
            None => {
                let ghost es = self.entries@;
                self.entries.push((name, addr));
                proof {
                    assert(self.entries@.drop_last() =~= es);
                    if old(self)@.contains_key(name@) {
                        let i = choose|i: int|
                            0 <= i < es.len() && #[trigger] es[i].0@ == name@;
                        assert(false);
                    }
                }
                None
            },
        }
    }

    /// The number of registered names.
    pub fn len(&self) -> (r: usize)
        requires
            self.wf(),
        ensures
            r == self@.dom().len(),
    {
        proof {
            lemma_entries_map_len(self.entries@);
        }
        self.entries.len()
    }
}

/// With distinct names, the map model has one key per entry.
proof fn lemma_entries_map_len(es: Seq<(String, u64)>)
    requires
        names_unique(es),
    ensures
        entries_map(es).dom().finite(),
        entries_map(es).dom().len() == es.len(),
    decreases es.len(),
{
    if es.len() > 0 {
        lemma_entries_map_len(es.drop_last());
        lemma_entries_map(es.drop_last());
        assert(forall|i: int|
            0 <= i < es.len() - 1 ==> #[trigger] es.drop_last()[i] == es[i]);
        assert(!entries_map(es.drop_last()).contains_key(es.last().0@));
    }
}

} // verus!
