//! A map keyed by strings, kept as a list of entries with distinct keys in
//! the order in which they were first inserted.
use vstd::prelude::*;
use crate::text::str_eq;

verus! {

/// A map from strings to values. Its view is the map; `entries()` gives
/// the entries in the order in which their keys were first inserted (not in
/// sorted key order), and that is the order in which listings built from it
/// (gateway logins on the notification stream, typography features,
/// ingredients) come out.
pub struct StringMap<V> {
    entries: Vec<(String, V)>,
}

/// The keys of a list of entries.
pub open spec fn entry_keys<V>(e: Seq<(String, V)>) -> Seq<Seq<char>> {
    Seq::new(e.len(), |i: int| e[i].0@)
}

/// The map that a list of entries with distinct keys holds.
pub open spec fn entries_map<V>(e: Seq<(String, V)>) -> Map<Seq<char>, V> {
    Map::new(
        |k: Seq<char>| exists|i: int| 0 <= i < e.len() && e[i].0@ == k,
        |k: Seq<char>| e[choose|i: int| 0 <= i < e.len() && e[i].0@ == k].1,
    )
}

/// No two entries share a key.
pub open spec fn distinct_keys<V>(e: Seq<(String, V)>) -> bool {
    forall|i: int, j: int| 0 <= i < e.len() && 0 <= j < e.len() && i != j ==> e[i].0@ != e[j].0@
}

proof fn lemma_entries_map_at<V>(e: Seq<(String, V)>, i: int)
    requires
        distinct_keys(e),
        0 <= i < e.len(),
    ensures
        entries_map(e).dom().contains(e[i].0@),
        entries_map(e)[e[i].0@] == e[i].1,
{
    let k = e[i].0@;
    assert(exists|j: int| 0 <= j < e.len() && e[j].0@ == k);
    let c = choose|j: int| 0 <= j < e.len() && e[j].0@ == k;
    assert(c == i);
}

impl<V> StringMap<V> {
    /// The map held.
    pub closed spec fn view(&self) -> Map<Seq<char>, V> {
        entries_map(self.entries@)
    }

    /// The entries, in order of first insertion.
    pub closed spec fn entries(&self) -> Seq<(Seq<char>, V)> {
        Seq::new(self.entries@.len(), |i: int| (self.entries@[i].0@, self.entries@[i].1))
    }

    /// The map's internal invariant: keys are distinct.
    pub closed spec fn wf(&self) -> bool {
        distinct_keys(self.entries@)
    }

    /// The entries list the map exactly, once per key.
    pub proof fn lemma_entries(&self)
        requires
            self.wf(),
        ensures
            self.entries().len() == self@.dom().len(),
            self@.dom().finite(),
            forall|i: int, j: int|
                0 <= i < self.entries().len() && 0 <= j < self.entries().len() && i != j
                    ==> self.entries()[i].0 != self.entries()[j].0,
            forall|i: int| 0 <= i < self.entries().len() ==> self@.dom().contains(#[trigger] self.entries()[i].0)
                && self@[self.entries()[i].0] == self.entries()[i].1,
            forall|k: Seq<char>| #[trigger] self@.dom().contains(k) ==> exists|i: int|
                0 <= i < self.entries().len() && self.entries()[i].0 == k,
    {
        let e = self.entries@;
        assert forall|i: int| 0 <= i < self.entries().len() implies self@.dom().contains(
            #[trigger] self.entries()[i].0,
        ) && self@[self.entries()[i].0] == self.entries()[i].1 by {
            lemma_entries_map_at(e, i);
        }
        let keys = entry_keys(e);
        assert(keys.no_duplicates());
        keys.unique_seq_to_set();
        assert(self@.dom() =~= keys.to_set()) by {
            assert forall|k: Seq<char>| self@.dom().contains(k) <==> keys.to_set().contains(k) by {
                if self@.dom().contains(k) {
                    let i = choose|i: int| 0 <= i < e.len() && e[i].0@ == k;
                    assert(keys[i] == k);
                }
                if keys.to_set().contains(k) {
                    let i = choose|i: int| 0 <= i < keys.len() && keys[i] == k;
                    assert(e[i].0@ == k);
                }
            }
        }
        assert forall|k: Seq<char>| #[trigger] self@.dom().contains(k) implies exists|i: int|
            0 <= i < self.entries().len() && self.entries()[i].0 == k by {
            let i = choose|i: int| 0 <= i < e.len() && e[i].0@ == k;
            assert(self.entries()[i].0 == k);
        }
        assert(keys.to_set().finite()) by {
            vstd::seq_lib::seq_to_set_is_finite(keys);
        }
    }

    /// An empty map.
    pub fn new() -> (m: Self)
        ensures
            m.wf(),
            m@ == Map::<Seq<char>, V>::empty(),
            m.entries() == Seq::<(Seq<char>, V)>::empty(),
    {
        let m = StringMap { entries: Vec::new() };
        assert(m@ =~= Map::<Seq<char>, V>::empty());
        assert(m.entries() =~= Seq::<(Seq<char>, V)>::empty());
        m
    }

    /// The number of keys.
    pub fn len(&self) -> (n: usize)
        requires
            self.wf(),
        ensures
            n == self@.dom().len(),
            n == self.entries().len(),
    {
        proof {
            self.lemma_entries();
        }
        self.entries.len()
    }

    fn find(&self, key: &str) -> (r: Option<usize>)
        requires
            self.wf(),
        ensures
            match r {
                Some(i) => i < self.entries@.len() && self.entries@[i as int].0@ == key@,
                None => forall|i: int| 0 <= i < self.entries@.len() ==> self.entries@[i].0@ != key@,
            },
    {
        let mut i: usize = 0;
        while i < self.entries.len()
            invariant
                i <= self.entries@.len(),
                forall|j: int| 0 <= j < i ==> self.entries@[j].0@ != key@,
            decreases self.entries@.len() - i,
        {
            if str_eq(self.entries[i].0.as_str(), key) {
                return Some(i);
            }
            i += 1;
        }
        None
    }

    /// Whether the map holds `key`.
    pub fn contains_key(&self, key: &str) -> (r: bool)
        requires
            self.wf(),
        ensures
            r == self@.dom().contains(key@),
    {
        match self.find(key) {
            Some(i) => {
                proof {
                    lemma_entries_map_at(self.entries@, i as int);
                }
                true
            },
            None => false,
        }
    }

    /// The value held for `key`.
    pub fn get(&self, key: &str) -> (r: Option<&V>)
        requires
            self.wf(),
        ensures
            match r {
                Some(v) => self@.dom().contains(key@) && self@[key@] == *v,
                None => !self@.dom().contains(key@),
            },
    {
        match self.find(key) {
            Some(i) => {
                proof {
                    lemma_entries_map_at(self.entries@, i as int);
                }
                Some(&self.entries[i].1)
            },
            None => None,
        }
    }

    /// The entry at position `i`.
    pub fn entry_at(&self, i: usize) -> (r: (&String, &V))
        requires
            i < self.entries().len(),
        ensures
            r.0@ == self.entries()[i as int].0,
            *r.1 == self.entries()[i as int].1,
    {
        (&self.entries[i].0, &self.entries[i].1)
    }

    /// Sets the value for `key`: an existing entry keeps its position, a new
    /// key goes last.
    pub fn insert(&mut self, key: String, value: V)
        requires
            old(self).wf(),
        ensures
            final(self).wf(),
            final(self)@ == old(self)@.insert(key@, value),
            old(self)@.dom().contains(key@) ==> final(self).entries().len() == old(self).entries().len(),
            !old(self)@.dom().contains(key@) ==> final(self).entries() == old(self).entries().push(
                (key@, value),
            ),
    {
        let ghost old_e = self.entries@;
        match self.find(key.as_str()) {
            Some(i) => {
                self.entries.set(i, (key, value));
                proof {
                    let e = self.entries@;
                    assert(distinct_keys(e)) by {
                        assert forall|a: int, b: int| 0 <= a < e.len() && 0 <= b < e.len() && a != b implies e[a].0@ != e[b].0@ by {
                            assert(old_e[a].0@ == e[a].0@);
                            assert(old_e[b].0@ == e[b].0@);
                        }
                    }
                    assert forall|k: Seq<char>| #[trigger] entries_map(e).dom().contains(k) <==> entries_map(old_e).insert(key@, value).dom().contains(k) by {
                        if entries_map(e).dom().contains(k) {
                            let j = choose|j: int| 0 <= j < e.len() && e[j].0@ == k;
                            assert(old_e[j].0@ == k);
                        }
                        if entries_map(old_e).dom().contains(k) {
                            let j = choose|j: int| 0 <= j < old_e.len() && old_e[j].0@ == k;
                            assert(e[j].0@ == k);
                        }
                    }
                    assert forall|k: Seq<char>| #[trigger] entries_map(e).dom().contains(k) implies entries_map(e)[k] == entries_map(old_e).insert(key@, value)[k] by {
                        let j = choose|j: int| 0 <= j < e.len() && e[j].0@ == k;
                        lemma_entries_map_at(e, j);
                        if k != key@ {
                            assert(old_e[j] == e[j]);
                            lemma_entries_map_at(old_e, j);
                        }
                    }
                    assert(entries_map(e) =~= entries_map(old_e).insert(key@, value));
                    assert(self.entries().len() == old_e.len());
                }
            },
            None => {
                self.entries.push((key, value));
                proof {
                    let e = self.entries@;
                    assert(distinct_keys(e));
                    assert forall|k: Seq<char>| #[trigger] entries_map(e).dom().contains(k) <==> entries_map(old_e).insert(key@, value).dom().contains(k) by {
                        if entries_map(e).dom().contains(k) {
                            let j = choose|j: int| 0 <= j < e.len() && e[j].0@ == k;
                            if j < old_e.len() {
                                assert(old_e[j].0@ == k);
                            }
                        }
                        if entries_map(old_e).dom().contains(k) {
                            let j = choose|j: int| 0 <= j < old_e.len() && old_e[j].0@ == k;
                            assert(e[j].0@ == k);
                        }
                        if k == key@ {
                            assert(e[old_e.len() as int].0@ == k);
                        }
                    }
                    assert forall|k: Seq<char>| #[trigger] entries_map(e).dom().contains(k) implies entries_map(e)[k] == entries_map(old_e).insert(key@, value)[k] by {
                        let j = choose|j: int| 0 <= j < e.len() && e[j].0@ == k;
                        lemma_entries_map_at(e, j);
                        if k != key@ {
                            assert(j < old_e.len());
                            assert(old_e[j] == e[j]);
                            lemma_entries_map_at(old_e, j);
                        }
                    }
                    assert(entries_map(e) =~= entries_map(old_e).insert(key@, value));
                    assert(self.entries() =~= old(self).entries().push((key@, value)));
                }
            },
        }
    }

    /// Removes `key`, returning its value; the other entries keep their order.
    pub fn remove(&mut self, key: &str) -> (r: Option<V>)
        requires
            old(self).wf(),
        ensures
            final(self).wf(),
            final(self)@ == old(self)@.remove(key@),
            match r {
                Some(v) => old(self)@.dom().contains(key@) && old(self)@[key@] == v,
                None => !old(self)@.dom().contains(key@),
            },
    {
        let ghost old_e = self.entries@;
        match self.find(key) {
            Some(i) => {
                proof {
                    lemma_entries_map_at(old_e, i as int);
                }
                let (_, v) = self.entries.remove(i);
                proof {
                    let e = self.entries@;
                    assert forall|a: int| 0 <= a < e.len() implies #[trigger] e[a] == (if a < i {
                        old_e[a]
                    } else {
                        old_e[a + 1]
                    }) by {}
                    assert(distinct_keys(e)) by {
                        assert forall|a: int, b: int| 0 <= a < e.len() && 0 <= b < e.len() && a != b implies e[a].0@ != e[b].0@ by {
                            let a1 = if a < i { a } else { a + 1 };
                            let b1 = if b < i { b } else { b + 1 };
                            assert(e[a] == old_e[a1]);
                            assert(e[b] == old_e[b1]);
                        }
                    }
                    assert forall|k: Seq<char>| #[trigger] entries_map(e).dom().contains(k) <==> entries_map(old_e).remove(key@).dom().contains(k) by {
                        if entries_map(e).dom().contains(k) {
                            let j = choose|j: int| 0 <= j < e.len() && e[j].0@ == k;
                            let j1 = if j < i { j } else { j + 1 };
                            assert(e[j] == old_e[j1]);
                            assert(old_e[j1].0@ == k);
                            assert(j1 != i);
                        }
                        if entries_map(old_e).remove(key@).dom().contains(k) {
                            let j = choose|j: int| 0 <= j < old_e.len() && old_e[j].0@ == k;
                            assert(j != i);
                            let j0 = if j < i { j } else { j - 1 };
                            assert(e[j0] == old_e[j]);
                        }
                    }
                    assert forall|k: Seq<char>| #[trigger] entries_map(e).dom().contains(k) implies entries_map(e)[k] == entries_map(old_e).remove(key@)[k] by {
                        let j = choose|j: int| 0 <= j < e.len() && e[j].0@ == k;
                        lemma_entries_map_at(e, j);
                        let j1 = if j < i { j } else { j + 1 };
                        assert(e[j] == old_e[j1]);
                        lemma_entries_map_at(old_e, j1);
                    }
                    assert(entries_map(e) =~= entries_map(old_e).remove(key@));
                }
                Some(v)
            },
            None => {
                proof {
                    assert(!entries_map(old_e).dom().contains(key@));
                    assert(entries_map(old_e) =~= entries_map(old_e).remove(key@));
                }
                None
            },
        }
    }
}

impl StringMap<String> {
    /// A copy of a map of strings, with its entries in the same order.
    pub fn copy_strings(&self) -> (r: StringMap<String>)
        requires
            self.wf(),
        ensures
            r@ == self@,
            r.entries() == self.entries(),
            r.wf(),
    {
        let mut out: Vec<(String, String)> = Vec::new();
        let mut i: usize = 0;
        while i < self.entries.len()
            invariant
                i <= self.entries@.len(),
                out@.len() == i,
                forall|k: int| 0 <= k < i ==> (#[trigger] out@[k]).0@ == self.entries@[k].0@ && out@[k].1 == self.entries@[k].1,
            decreases self.entries@.len() - i,
        {
            out.push((self.entries[i].0.clone(), self.entries[i].1.clone()));
            i += 1;
        }
        let r = StringMap { entries: out };
        assert(r.entries() =~= self.entries());
        assert(entry_keys(r.entries@) =~= entry_keys(self.entries@));
        assert(r@ =~= self@) by {
            assert forall|k: Seq<char>| r@.dom().contains(k) <==> self@.dom().contains(k) by {
                if r@.dom().contains(k) {
                    let j = choose|j: int| 0 <= j < r.entries@.len() && r.entries@[j].0@ == k;
                    assert(self.entries@[j].0@ == k);
                }
                if self@.dom().contains(k) {
                    let j = choose|j: int| 0 <= j < self.entries@.len() && self.entries@[j].0@ == k;
                    assert(r.entries@[j].0@ == k);
                }
            }
            assert forall|k: Seq<char>| r@.dom().contains(k) implies r@[k] == self@[k] by {
                let a = choose|j: int| 0 <= j < r.entries@.len() && r.entries@[j].0@ == k;
                let b = choose|j: int| 0 <= j < self.entries@.len() && self.entries@[j].0@ == k;
                assert(self.entries@[a].0@ == k);
                assert(r.entries@[b].0@ == k);
                if a != b {
                    assert(self.entries@[a].0@ == self.entries@[b].0@);
                }
            }
        }
        r
    }
}

} // verus!
