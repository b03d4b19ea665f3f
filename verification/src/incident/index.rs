//! A small index from keys to incidents.
use super::IncidentId;
use vstd::prelude::*;

verus! {

/// A key that an [`Index`] can compare.
pub trait IndexKey: View + Sized {
    /// Whether the two are the same key.
    fn same_key(&self, other: &Self) -> (same: bool)
        ensures
            same == (self@ == other@),
    ;
}

/// The entry at `i` stands under `key`.
pub open spec fn indexed_at<M>(entries: Seq<(M, IncidentId)>, key: M, i: int) -> bool {
    0 <= i < entries.len() && entries[i].0 == key
}

/// No key occurs twice.
pub open spec fn distinct_keys<M>(entries: Seq<(M, IncidentId)>) -> bool {
    forall|i: int, j: int|
        0 <= i < entries.len() && 0 <= j < entries.len() && i != j ==> (#[trigger] entries[i]).0
            != (#[trigger] entries[j]).0
}

/// The map that a list of entries stands for.
pub open spec fn index_map<M>(entries: Seq<(M, IncidentId)>) -> Map<M, IncidentId> {
    Map::new(
        |key: M| exists|i: int| indexed_at(entries, key, i),
        |key: M| entries[choose|i: int| indexed_at(entries, key, i)].1,
    )
}

proof fn lemma_indexed<M>(entries: Seq<(M, IncidentId)>, i: int)
    requires
        distinct_keys(entries),
        0 <= i < entries.len(),
    ensures
        index_map(entries).contains_key(entries[i].0),
        index_map(entries)[entries[i].0] == entries[i].1,
{
    let key = entries[i].0;
    assert(indexed_at(entries, key, i));
    let chosen = choose|j: int| indexed_at(entries, key, j);
    assert(chosen == i);
}

/// Entries with distinct keys stand for the map that has these entries and no others.
proof fn lemma_index_map_is<M>(entries: Seq<(M, IncidentId)>, map: Map<M, IncidentId>)
    requires
        distinct_keys(entries),
        forall|i: int|
            0 <= i < entries.len() ==> map.contains_key((#[trigger] entries[i]).0)
                && map[entries[i].0] == entries[i].1,
        forall|key: M| #[trigger]
            map.contains_key(key) ==> exists|i: int| indexed_at(entries, key, i),
    ensures
        index_map(entries) == map,
{
    assert forall|key: M| index_map(entries).contains_key(key) implies map.contains_key(key)
        && index_map(entries)[key] == map[key] by {
        let i = choose|i: int| indexed_at(entries, key, i);
        lemma_indexed(entries, i);
    }
    assert(index_map(entries) =~= map);
}

/// An index from keys to incidents: under each key stands at most one incident.
pub struct Index<K: IndexKey> {
    entries: Vec<(K, IncidentId)>,
}

impl<K: IndexKey> View for Index<K> {
    type V = Map<K::V, IncidentId>;

    closed spec fn view(&self) -> Map<K::V, IncidentId> {
        index_map(self.models())
    }
}

impl<K: IndexKey> Index<K> {
    spec fn models(&self) -> Seq<(K::V, IncidentId)> {
        Seq::new(self.entries.len() as nat, |i: int| (self.entries[i].0@, self.entries[i].1))
    }

    /// No key occurs twice.
    pub closed spec fn wf(&self) -> bool {
        distinct_keys(self.models())
    }

    /// An empty index.
    pub fn new() -> (index: Index<K>)
        ensures
            index.wf(),
            index@ == Map::<K::V, IncidentId>::empty(),
    {
        let index = Index { entries: Vec::new() };
        assert(index@ =~= Map::<K::V, IncidentId>::empty());
        index
    }

    fn position(&self, key: &K) -> (position: Option<usize>)
        requires
            self.wf(),
        ensures
            match position {
                Some(i) => i < self.entries.len() && self.models()[i as int].0 == key@
                    && self@.contains_key(key@) && self@[key@] == self.models()[i as int].1,
                None => !self@.contains_key(key@) && forall|i: int|
                    0 <= i < self.models().len() ==> (#[trigger] self.models()[i]).0 != key@,
            },
    {
        let mut i: usize = 0;
        while i < self.entries.len()
            invariant
                self.wf(),
                i <= self.entries.len(),
                forall|j: int| 0 <= j < i ==> (#[trigger] self.models()[j]).0 != key@,
            decreases self.entries.len() - i,
        {
            assert(self.models()[i as int].0 == self.entries[i as int].0@);
            if self.entries[i].0.same_key(key) {
                proof {
                    lemma_indexed(self.models(), i as int);
                }
                return Some(i);
            }
            i = i + 1;
        }
        None
    }

    /// The incident under `key`.
    pub fn get(&self, key: &K) -> (found: Option<IncidentId>)
        requires
            self.wf(),
        ensures
            found == self@.get(key@),
    {
        match self.position(key) {
            Some(i) => Some(self.entries[i].1),
            None => None,
        }
    }

    /// Puts `id` under `key`, in place of what stood there.
    pub fn insert(&mut self, key: K, id: IncidentId)
        requires
            old(self).wf(),
        ensures
            final(self).wf(),
            final(self)@ == old(self)@.insert(key@, id),
    {
        let ghost before = self.models();
        let ghost map = self@;
        let ghost model = key@;
        match self.position(&key) {
            Some(i) => {
                self.entries.set(i, (key, id));
                proof {
                    assert(self.models() =~= before.update(i as int, (model, id)));
                    lemma_entries_cover(before);
                    assert forall|k: K::V| #[trigger] map.insert(model, id).contains_key(
                        k,
                    ) implies exists|j: int| indexed_at(self.models(), k, j) by {
                        if k == model {
                            assert(indexed_at(self.models(), k, i as int));
                        } else {
                            let j = choose|j: int| indexed_at(before, k, j);
                            assert(indexed_at(self.models(), k, j));
                        }
                    }
                    lemma_index_map_is(self.models(), map.insert(model, id));
                }
            },
            None => {
                self.entries.push((key, id));
                proof {
                    assert(self.models() =~= before.push((model, id)));
                    lemma_entries_cover(before);
                    assert forall|k: K::V| #[trigger] map.insert(model, id).contains_key(
                        k,
                    ) implies exists|j: int| indexed_at(self.models(), k, j) by {
                        if k == model {
                            assert(indexed_at(self.models(), k, before.len() as int));
                        } else {
                            let j = choose|j: int| indexed_at(before, k, j);
                            assert(indexed_at(self.models(), k, j));
                        }
                    }
                    lemma_index_map_is(self.models(), map.insert(model, id));
                }
            },
        }
    }

    /// Takes away what stands under `key`.
    pub fn remove(&mut self, key: &K)
        requires
            old(self).wf(),
        ensures
            final(self).wf(),
            final(self)@ == old(self)@.remove(key@),
    {
        let ghost before = self.models();
        let ghost map = self@;
        match self.position(key) {
            Some(i) => {
                let _ = self.entries.remove(i);
                proof {
                    let after = self.models();
                    assert(after =~= before.remove(i as int));
                    lemma_entries_cover(before);
                    assert forall|a: int, b: int|
                        0 <= a < after.len() && 0 <= b < after.len() && a != b implies (
                    #[trigger] after[a]).0 != (#[trigger] after[b]).0 by {
                        let x = if a < i { a } else { a + 1 };
                        let y = if b < i { b } else { b + 1 };
                        assert(after[a] == before[x]);
                        assert(after[b] == before[y]);
                    }
                    assert forall|a: int| 0 <= a < after.len() implies map.remove(
                        key@,
                    ).contains_key((#[trigger] after[a]).0) && map.remove(key@)[after[a].0]
                        == after[a].1 by {
                        let x = if a < i { a } else { a + 1 };
                        assert(after[a] == before[x]);
                        lemma_indexed(before, x);
                    }
                    assert forall|k: K::V| #[trigger] map.remove(key@).contains_key(
                        k,
                    ) implies exists|j: int| indexed_at(after, k, j) by {
                        let j = choose|j: int| indexed_at(before, k, j);
                        assert(indexed_at(after, k, if j < i { j } else { j - 1 }));
                    }
                    lemma_index_map_is(after, map.remove(key@));
                }
            },
            None => {
                assert(map.remove(key@) =~= map);
            },
        }
    }
}

/// Each entry is in the map that distinct entries stand for.
proof fn lemma_entries_cover<M>(entries: Seq<(M, IncidentId)>)
    requires
        distinct_keys(entries),
    ensures
        forall|i: int|
            0 <= i < entries.len() ==> index_map(entries).contains_key((#[trigger] entries[i]).0)
                && index_map(entries)[entries[i].0] == entries[i].1,
{
    assert forall|i: int| 0 <= i < entries.len() implies index_map(entries).contains_key(
        (#[trigger] entries[i]).0,
    ) && index_map(entries)[entries[i].0] == entries[i].1 by {
        lemma_indexed(entries, i);
    }
}

} // verus!
