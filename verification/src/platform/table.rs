//! A table of values keyed by device ID, in which each ID occurs at most
//! once.

use vstd::prelude::*;
use crate::types::str_equals;

verus! {

broadcast use vstd::string::to_string_from_display_ensures_for_str;

/// The table the entries `s` give, in order: a later entry for an ID
/// replaces an earlier one.
pub open spec fn entries_map<T>(s: Seq<(String, T)>) -> Map<Seq<char>, T>
    decreases s.len(),
{
    if s.len() == 0 {
        Map::empty()
    } else {
        entries_map(s.drop_last()).insert(s.last().0@, s.last().1)
    }
}

/// Values keyed by device ID.
pub struct DeviceTable<T> {
    entries: Vec<(String, T)>,
}

impl<T> DeviceTable<T> {
    /// Every device ID occurs at most once.
    pub closed spec fn wf(&self) -> bool {
        forall|i: int, j: int|
            0 <= i < self.entries@.len() && 0 <= j < self.entries@.len() && i != j
                ==> (#[trigger] self.entries@[i]).0@ != (#[trigger] self.entries@[j]).0@
    }

    /// Whether a value is kept for `id`.
    closed spec fn has(&self, id: Seq<char>) -> bool {
        exists|i: int| 0 <= i < self.entries@.len() && (#[trigger] self.entries@[i]).0@ == id
    }

    /// The value kept for `id`, if any.
    closed spec fn at(&self, id: Seq<char>) -> T {
        self.entries@[choose|i: int|
            0 <= i < self.entries@.len() && (#[trigger] self.entries@[i]).0@ == id].1
    }

    /// The value at position `i` is the one kept for its ID.
    proof fn lemma_entry(&self, i: int)
        requires
            self.wf(),
            0 <= i < self.entries@.len(),
        ensures
            self.has(self.entries@[i].0@),
            self.at(self.entries@[i].0@) == self.entries@[i].1,
    {
        let id = self.entries@[i].0@;
        assert(self.entries@[i].0@ == id);
        let j = choose|j: int| 0 <= j < self.entries@.len() && (#[trigger] self.entries@[j]).0@ == id;
        if j != i {
            assert(self.entries@[i].0@ != self.entries@[j].0@);
        }
    }

    /// The table as a map from device ID to value.
    pub closed spec fn map(&self) -> Map<Seq<char>, T> {
        Map::new(|id: Seq<char>| self.has(id), |id: Seq<char>| self.at(id))
    }

    /// An empty table.
    pub fn new() -> (t: Self)
        ensures
            t.wf(),
            t.map() == Map::<Seq<char>, T>::empty(),
    {
        let t = DeviceTable { entries: Vec::new() };
        assert(t.map() =~= Map::<Seq<char>, T>::empty());
        t
    }

    /// The position of `id` in the table, if a value is kept for it.
    fn find(&self, id: &str) -> (pos: Option<usize>)
        requires
            self.wf(),
        ensures
            pos is None ==> !self.map().contains_key(id@),
            pos matches Some(i) ==> i < self.entries@.len() && self.entries@[i as int].0@ == id@
                && self.map().contains_key(id@) && self.map()[id@] == self.entries@[i as int].1,
    {
        let mut i: usize = 0;
        while i < self.entries.len()
            invariant
                i <= self.entries@.len(),
                self.wf(),
                forall|k: int| 0 <= k < i ==> (#[trigger] self.entries@[k]).0@ != id@,
            decreases self.entries@.len() - i,
        {
            if str_equals(self.entries[i].0.as_str(), id) {
                proof {
                    self.lemma_entry(i as int);
                }
                return Some(i);
            }
            i += 1;
        }
        None
    }

    /// Whether a value is kept for `id`.
    pub fn contains(&self, id: &str) -> (b: bool)
        requires
            self.wf(),
        ensures
            b == self.map().contains_key(id@),
    {
        self.find(id).is_some()
    }

    /// The value kept for `id`, if any.
    pub fn get(&self, id: &str) -> (v: Option<&T>)
        requires
            self.wf(),
        ensures
            v is None <==> !self.map().contains_key(id@),
            v matches Some(x) ==> *x == self.map()[id@],
    {
        match self.find(id) {
            Some(i) => Some(&self.entries[i].1),
            None => None,
        }
    }

    /// Keep `value` for `id`, replacing the value kept for it before.
    pub fn insert(&mut self, id: &str, value: T)
        requires
            old(self).wf(),
        ensures
            final(self).wf(),
            final(self).map() == old(self).map().insert(id@, value),
    {
        let ghost before = self.entries@;
        let ghost old_map = old(self).map();
        match self.find(id) {
            Some(i) => {
                let ghost entry_id = self.entries@[i as int].0;
                let key = id.to_string();
                self.entries.set(i, (key, value));
                assert forall|a: int, b: int|
                    0 <= a < self.entries@.len() && 0 <= b < self.entries@.len() && a != b
                        implies (#[trigger] self.entries@[a]).0@
                    != (#[trigger] self.entries@[b]).0@ by {
                    assert(before[a].0@ == self.entries@[a].0@);
                    assert(before[b].0@ == self.entries@[b].0@);
                    assert(before[a].0@ != before[b].0@);
                }
                assert forall|k: Seq<char>| #[trigger] self.map().contains_key(k) == (k == id@
                    || old_map.contains_key(k)) by {
                    if old_map.contains_key(k) {
                        let j = choose|j: int|
                            0 <= j < before.len() && (#[trigger] before[j]).0@ == k;
                        assert(self.entries@[j].0@ == k);
                    }
                    if k == id@ {
                        assert(self.entries@[i as int].0@ == k);
                    }
                    if self.has(k) {
                        let j = choose|j: int|
                            0 <= j < self.entries@.len() && (#[trigger] self.entries@[j]).0@ == k;
                        assert(before[j].0@ == k);
                    }
                }
                assert forall|k: Seq<char>| #[trigger] self.map().contains_key(k) implies self.map()[k]
                    == old_map.insert(id@, value)[k] by {
                    let j = choose|j: int|
                        0 <= j < self.entries@.len() && (#[trigger] self.entries@[j]).0@ == k;
                    self.lemma_entry(j);
                    if k != id@ {
                        assert(before[j].0@ == k);
                        assert(before[j] == self.entries@[j]);
                        old(self).lemma_entry(j);
                    } else {
                        self.lemma_entry(i as int);
                    }
                }
                assert(self.map() =~= old_map.insert(id@, value));
            },
            None => {
                let key = id.to_string();
                self.entries.push((key, value));
                let ghost n = before.len() as int;
                assert forall|a: int, b: int|
                    0 <= a < self.entries@.len() && 0 <= b < self.entries@.len() && a != b
                        implies (#[trigger] self.entries@[a]).0@
                    != (#[trigger] self.entries@[b]).0@ by {
                    if a < n && b < n {
                        assert(before[a].0@ != before[b].0@);
                    } else if a == n {
                        assert(self.entries@[b].0@ == before[b].0@);
                        if before[b].0@ == id@ {
                            assert(old(self).has(id@));
                        }
                    } else {
                        assert(self.entries@[a].0@ == before[a].0@);
                        if before[a].0@ == id@ {
                            assert(old(self).has(id@));
                        }
                    }
                }
                assert forall|k: Seq<char>| #[trigger] self.map().contains_key(k) == (k == id@
                    || old_map.contains_key(k)) by {
                    if old_map.contains_key(k) {
                        let j = choose|j: int|
                            0 <= j < before.len() && (#[trigger] before[j]).0@ == k;
                        assert(self.entries@[j].0@ == k);
                    }
                    if k == id@ {
                        assert(self.entries@[n].0@ == k);
                    }
                    if self.has(k) && k != id@ {
                        let j = choose|j: int|
                            0 <= j < self.entries@.len() && (#[trigger] self.entries@[j]).0@ == k;
                        assert(before[j].0@ == k);
                    }
                }
                assert forall|k: Seq<char>| #[trigger] self.map().contains_key(k) implies self.map()[k]
                    == old_map.insert(id@, value)[k] by {
                    let j = choose|j: int|
                        0 <= j < self.entries@.len() && (#[trigger] self.entries@[j]).0@ == k;
                    self.lemma_entry(j);
                    if k != id@ {
                        assert(j != n);
                        assert(before[j] == self.entries@[j]);
                        old(self).lemma_entry(j);
                    } else {
                        self.lemma_entry(n);
                    }
                }
                assert(self.map() =~= old_map.insert(id@, value));
            },
        }
    }

    /// Take the value kept for `id` out of the table, if there is one.
    pub fn remove(&mut self, id: &str) -> (v: Option<T>)
        requires
            old(self).wf(),
        ensures
            final(self).wf(),
            final(self).map() == old(self).map().remove(id@),
            v is None <==> !old(self).map().contains_key(id@),
            v matches Some(x) ==> x == old(self).map()[id@],
    {
        let ghost before = self.entries@;
        let ghost old_map = old(self).map();
        match self.find(id) {
            Some(i) => {
                let (_, value) = self.entries.remove(i);
                let ghost ii = i as int;
                assert forall|a: int, b: int|
                    0 <= a < self.entries@.len() && 0 <= b < self.entries@.len() && a != b
                        implies (#[trigger] self.entries@[a]).0@
                    != (#[trigger] self.entries@[b]).0@ by {
                    let a0 = if a < ii { a } else { a + 1 };
                    let b0 = if b < ii { b } else { b + 1 };
                    assert(self.entries@[a] == before[a0]);
                    assert(self.entries@[b] == before[b0]);
                    assert(before[a0].0@ != before[b0].0@);
                }
                assert forall|k: Seq<char>| #[trigger] self.map().contains_key(k) == (k != id@
                    && old_map.contains_key(k)) by {
                    if old_map.contains_key(k) && k != id@ {
                        let j = choose|j: int|
                            0 <= j < before.len() && (#[trigger] before[j]).0@ == k;
                        assert(j != ii);
                        let j1 = if j < ii { j } else { j - 1 };
                        assert(self.entries@[j1] == before[j]);
                    }
                    if self.has(k) {
                        let j = choose|j: int|
                            0 <= j < self.entries@.len() && (#[trigger] self.entries@[j]).0@ == k;
                        let j0 = if j < ii { j } else { j + 1 };
                        assert(self.entries@[j] == before[j0]);
                        assert(before[j0].0@ == k);
                        if k == id@ {
                            assert(before[ii].0@ == k);
                            assert(j0 != ii);
                        }
                    }
                }
                assert forall|k: Seq<char>| #[trigger] self.map().contains_key(k) implies self.map()[k]
                    == old_map[k] by {
                    let j = choose|j: int|
                        0 <= j < self.entries@.len() && (#[trigger] self.entries@[j]).0@ == k;
                    self.lemma_entry(j);
                    let j0 = if j < ii { j } else { j + 1 };
                    assert(self.entries@[j] == before[j0]);
                    old(self).lemma_entry(j0);
                }
                assert(self.map() =~= old_map.remove(id@));
                Some(value)
            },
            None => {
                assert(self.map() =~= old_map.remove(id@));
                None
            },
        }
    }

    /// The device IDs of the table, in the order they were first kept.
    pub closed spec fn ids_in_order(&self) -> Seq<Seq<char>> {
        self.entries@.map_values(|e: (String, T)| e.0@)
    }

    /// The IDs in order are the table's keys, each once.
    pub proof fn lemma_ids_are_keys(&self)
        requires
            self.wf(),
        ensures
            forall|id: Seq<char>| #[trigger] self.ids_in_order().contains(id) <==> self.map().contains_key(
                id,
            ),
            forall|i: int, j: int|
                0 <= i < j < self.ids_in_order().len() ==> self.ids_in_order()[i]
                    != self.ids_in_order()[j],
    {
        let ids = self.ids_in_order();
        assert forall|id: Seq<char>| #[trigger] ids.contains(id) <==> self.map().contains_key(id) by {
            if ids.contains(id) {
                let i = choose|i: int| 0 <= i < ids.len() && ids[i] == id;
                assert(self.entries@[i].0@ == id);
            }
            if self.map().contains_key(id) {
                let i = choose|i: int|
                    0 <= i < self.entries@.len() && (#[trigger] self.entries@[i]).0@ == id;
                assert(ids[i] == id);
            }
        }
        assert forall|i: int, j: int| 0 <= i < j < ids.len() implies ids[i] != ids[j] by {
            assert(ids[i] == self.entries@[i].0@);
            assert(ids[j] == self.entries@[j].0@);
        }
    }

    /// The device IDs of the table, in the order they were first kept.
    pub fn ids(&self) -> (v: Vec<String>)
        ensures
            v@.map_values(|s: String| s@) == self.ids_in_order(),
    {
        let mut v: Vec<String> = Vec::new();
        let mut i: usize = 0;
        while i < self.entries.len()
            invariant
                i <= self.entries@.len(),
                v@.len() == i,
                forall|j: int| 0 <= j < i ==> (#[trigger] v@[j])@ == self.entries@[j].0@,
            decreases self.entries@.len() - i,
        {
            let id = self.entries[i].0.clone();
            v.push(id);
            assert(id == self.entries@[i as int].0);
            i += 1;
        }
        assert(v@.map_values(|s: String| s@) =~= self.ids_in_order());
        v
    }

    /// Replace the table's contents by `entries`; of several entries for one
    /// ID, the last is kept.
    pub fn replace_all(&mut self, entries: Vec<(String, T)>)
        ensures
            final(self).wf(),
            final(self).map() == entries_map(entries@),
    {
        let ghost all = entries@;
        let mut rest = entries;
        let mut table: DeviceTable<T> = DeviceTable::new();
        let ghost mut k: int = 0;
        while rest.len() > 0
            invariant
                table.wf(),
                0 <= k <= all.len(),
                rest@ == all.subrange(k, all.len() as int),
                table.map() == entries_map(all.take(k)),
            decreases rest@.len(),
        {
            let (id, value) = rest.remove(0);
            proof {
                assert(all.take(k + 1).drop_last() =~= all.take(k));
                assert(all.take(k + 1).last() == all[k]);
            }
            table.insert(id.as_str(), value);
            proof {
                k = k + 1;
                assert(rest@ =~= all.subrange(k, all.len() as int));
            }
        }
        assert(all.take(k) =~= all);
        *self = table;
    }
}

} // verus!
