//! Maps from text to values, kept in the order of their keys.
use crate::text::{place, Placed};
use vstd::prelude::*;

verus! {

broadcast use vstd::group_vstd_default;

/// The pairs come in ascending order of their keys, so no key occurs twice.
pub open spec fn ascending<M>(pairs: Seq<(Seq<char>, M)>) -> bool {
    forall|i: int, j: int|
        0 <= i < j < pairs.len() ==> crate::text::text_before(
            #[trigger] pairs[i].0,
            #[trigger] pairs[j].0,
        )
}

/// Where the key stands among the pairs.
pub open spec fn has_key_at<M>(pairs: Seq<(Seq<char>, M)>, key: Seq<char>, i: int) -> bool {
    0 <= i < pairs.len() && pairs[i].0 == key
}

/// The map from each key to its value.
pub open spec fn pairs_map<M>(pairs: Seq<(Seq<char>, M)>) -> Map<Seq<char>, M> {
    Map::new(
        |key: Seq<char>| exists|i: int| has_key_at(pairs, key, i),
        |key: Seq<char>| pairs[choose|i: int| has_key_at(pairs, key, i)].1,
    )
}

/// The pairs of a map, in ascending order of their keys.
pub open spec fn sorted_pairs<M>(map: Map<Seq<char>, M>) -> Seq<(Seq<char>, M)> {
    choose|pairs: Seq<(Seq<char>, M)>| #[trigger] ascending(pairs) && pairs_map(pairs) == map
}

/// In ascending pairs a key stands in one place only.
pub proof fn lemma_key_stands_once<M>(
    pairs: Seq<(Seq<char>, M)>,
    key: Seq<char>,
    i: int,
)
    requires
        ascending(pairs),
        has_key_at(pairs, key, i),
    ensures
        pairs_map(pairs).contains_key(key),
        pairs_map(pairs)[key] == pairs[i].1,
{
    let chosen = choose|j: int| has_key_at(pairs, key, j);
    crate::text::lemma_text_before_total_order(key, key, key);
    assert(chosen == i) by {
        if chosen < i {
            assert(crate::text::text_before(pairs[chosen].0, pairs[i].0));
        } else if i < chosen {
            assert(crate::text::text_before(pairs[i].0, pairs[chosen].0));
        }
    }
}

/// Dropping the first of ascending pairs removes its key from the map.
proof fn lemma_drop_first_removes<M>(pairs: Seq<(Seq<char>, M)>)
    requires
        ascending(pairs),
        pairs.len() > 0,
    ensures
        ascending(pairs.drop_first()),
        pairs_map(pairs.drop_first()) == pairs_map(pairs).remove(pairs[0].0),
{
    let rest = pairs.drop_first();
    let removed = pairs_map(pairs).remove(pairs[0].0);
    assert forall|i: int, j: int| 0 <= i < j < rest.len() implies crate::text::text_before(
        #[trigger] rest[i].0,
        #[trigger] rest[j].0,
    ) by {
        assert(crate::text::text_before(pairs[i + 1].0, pairs[j + 1].0));
    }
    assert forall|key: Seq<char>| pairs_map(rest).contains_key(key) <==> removed.contains_key(
        key,
    ) by {
        if pairs_map(rest).contains_key(key) {
            let i = choose|i: int| has_key_at(rest, key, i);
            assert(has_key_at(pairs, key, i + 1));
            crate::text::lemma_text_before_total_order(key, key, key);
            assert(crate::text::text_before(pairs[0].0, pairs[i + 1].0));
        }
        if removed.contains_key(key) {
            let i = choose|i: int| has_key_at(pairs, key, i);
            assert(has_key_at(rest, key, i - 1));
        }
    }
    assert forall|key: Seq<char>| pairs_map(rest).contains_key(key) implies pairs_map(rest)[key]
        == removed[key] by {
        let i = choose|i: int| has_key_at(rest, key, i);
        lemma_key_stands_once(rest, key, i);
        assert(has_key_at(pairs, key, i + 1));
        lemma_key_stands_once(pairs, key, i + 1);
        crate::text::lemma_text_before_total_order(key, key, key);
        assert(crate::text::text_before(pairs[0].0, pairs[i + 1].0));
    }
    assert(pairs_map(rest) =~= removed);
}

/// Two lists of ascending pairs with the same map are the same list.
pub proof fn lemma_map_determines_pairs<M>(
    a: Seq<(Seq<char>, M)>,
    b: Seq<(Seq<char>, M)>,
)
    requires
        ascending(a),
        ascending(b),
        pairs_map(a) == pairs_map(b),
    ensures
        a == b,
    decreases a.len(),
{
    if a.len() == 0 {
        if b.len() > 0 {
            assert(has_key_at(b, b[0].0, 0));
            assert(pairs_map(a).contains_key(b[0].0));
        }
        assert(a =~= b);
    } else {
        assert(has_key_at(a, a[0].0, 0));
        assert(pairs_map(b).contains_key(a[0].0));
        let j = choose|j: int| has_key_at(b, a[0].0, j);
        assert(has_key_at(b, b[0].0, 0));
        assert(pairs_map(a).contains_key(b[0].0));
        let i = choose|i: int| has_key_at(a, b[0].0, i);
        crate::text::lemma_text_before_total_order(a[0].0, b[0].0, a[0].0);
        if a[0].0 != b[0].0 {
            assert(crate::text::text_before(a[0].0, a[i].0));
            assert(crate::text::text_before(b[0].0, b[j].0));
        }
        lemma_key_stands_once(a, a[0].0, 0);
        lemma_key_stands_once(b, b[0].0, 0);
        lemma_drop_first_removes(a);
        lemma_drop_first_removes(b);
        lemma_map_determines_pairs(a.drop_first(), b.drop_first());
        assert(a =~= seq![a[0]] + a.drop_first());
        assert(b =~= seq![b[0]] + b.drop_first());
    }
}

/// Ascending pairs are the sorted pairs of their own map.
pub proof fn lemma_sorted_pairs<M>(pairs: Seq<(Seq<char>, M)>)
    requires
        ascending(pairs),
    ensures
        sorted_pairs(pairs_map(pairs)) == pairs,
{
    lemma_map_determines_pairs(sorted_pairs(pairs_map(pairs)), pairs);
}

/// Where a key stands among ascending pairs, or where it would stand.
proof fn lemma_key_has_a_place<M>(pairs: Seq<(Seq<char>, M)>, key: Seq<char>) -> (i: int)
    requires
        ascending(pairs),
    ensures
        0 <= i <= pairs.len(),
        forall|j: int| 0 <= j < i ==> crate::text::text_before(#[trigger] pairs[j].0, key),
        i < pairs.len() ==> pairs[i].0 == key || crate::text::text_before(key, pairs[i].0),
    decreases pairs.len(),
{
    if pairs.len() == 0 {
        0
    } else {
        let before = pairs.drop_last();
        let last = pairs.last().0;
        assert forall|i: int, j: int| 0 <= i < j < before.len() implies crate::text::text_before(
            #[trigger] before[i].0,
            #[trigger] before[j].0,
        ) by {
            assert(crate::text::text_before(pairs[i].0, pairs[j].0));
        }
        crate::text::lemma_text_before_total_order(last, key, last);
        let i = lemma_key_has_a_place(before, key);
        assert forall|j: int| 0 <= j < i implies crate::text::text_before(
            #[trigger] pairs[j].0,
            key,
        ) by {
            assert(before[j] == pairs[j]);
        }
        if i < before.len() {
            assert(before[i] == pairs[i]);
            i
        } else if crate::text::text_before(last, key) {
            pairs.len() as int
        } else {
            i
        }
    }
}

/// Every finite map has its pairs in ascending order.
pub proof fn lemma_finite_map_is_sorted<M>(map: Map<Seq<char>, M>)
    requires
        map.dom().finite(),
    ensures
        ascending(sorted_pairs(map)),
        pairs_map(sorted_pairs(map)) == map,
    decreases map.dom().len(),
{
    if map.dom().len() == 0 {
        let none = Seq::<(Seq<char>, M)>::empty();
        assert(ascending(none));
        assert(map.dom() =~= Set::empty());
        assert(pairs_map(none) =~= map);
    } else {
        let key = map.dom().choose();
        let rest = map.remove(key);
        assert(rest.dom() =~= map.dom().remove(key));
        lemma_finite_map_is_sorted(rest);
        let before = sorted_pairs(rest);
        let i = lemma_key_has_a_place(before, key);
        if i < before.len() && before[i].0 == key {
            assert(has_key_at(before, key, i));
            assert(pairs_map(before).contains_key(key));
        }
        let after = before.insert(i, (key, map[key]));
        lemma_insert_pair(before, after, (key, map[key]), i, false);
        assert(rest.insert(key, map[key]) =~= map);
        assert(ascending(after) && pairs_map(after) == map);
    }
}

/// Pairs stand for a finite map.
proof fn lemma_pairs_map_is_finite<M>(pairs: Seq<(Seq<char>, M)>)
    ensures
        pairs_map(pairs).dom().finite(),
{
    let keys = Seq::new(pairs.len(), |i: int| pairs[i].0);
    assert forall|key: Seq<char>| pairs_map(pairs).dom().contains(
        key,
    ) implies keys.to_set().contains(key) by {
        let i = choose|i: int| has_key_at(pairs, key, i);
        assert(keys[i] == key);
    }
    vstd::seq_lib::seq_to_set_is_finite(keys);
    vstd::set_lib::lemma_set_subset_finite(keys.to_set(), pairs_map(pairs).dom());
}

/// Values under text keys, kept in ascending order of the keys.
#[derive(Debug)]
pub struct TextMap<V: View> {
    entries: Vec<(String, V)>,
}

/// Text values under text keys: the labels or the annotations of an alert.
pub type Labels = TextMap<String>;

/// What a list of entries holds, in its order.
pub open spec fn entry_views<V: View>(entries: Seq<(String, V)>) -> Seq<(Seq<char>, V::V)> {
    Seq::new(entries.len(), |i: int| (entries[i].0@, entries[i].1@))
}

impl<V: View> View for TextMap<V> {
    type V = Map<Seq<char>, V::V>;

    closed spec fn view(&self) -> Map<Seq<char>, V::V> {
        pairs_map(entry_views(self.entries@))
    }
}

impl<V: View> TextMap<V> {
    #[verifier::type_invariant]
    spec fn sorted(self) -> bool {
        ascending(entry_views(self.entries@))
    }

    /// An empty map.
    pub fn new() -> (map: TextMap<V>)
        ensures
            map@ == Map::<Seq<char>, V::V>::empty(),
    {
        let map = TextMap { entries: Vec::new() };
        assert(map@ =~= Map::<Seq<char>, V::V>::empty());
        map
    }

    /// How many entries there are.
    pub fn len(&self) -> (len: usize)
        ensures
            len == sorted_pairs(self@).len(),
            self@.dom().finite(),
    {
        proof {
            use_type_invariant(self);
            lemma_sorted_pairs(entry_views(self.entries@));
            lemma_pairs_map_is_finite(entry_views(self.entries@));
        }
        self.entries.len()
    }

    /// The key and the value of the entry at `index`, in ascending order of the keys.
    pub fn at(&self, index: usize) -> (pair: (&str, &V))
        requires
            index < sorted_pairs(self@).len(),
        ensures
            (pair.0@, pair.1@) == sorted_pairs(self@)[index as int],
    {
        proof {
            use_type_invariant(self);
            lemma_sorted_pairs(entry_views(self.entries@));
        }
        let entry = &self.entries[index];
        (entry.0.as_str(), &entry.1)
    }

    /// The value under `key`.
    pub fn get(&self, key: &str) -> (value: Option<&V>)
        ensures
            value is Some <==> self@.contains_key(key@),
            value matches Some(v) ==> v@ == self@[key@],
    {
        proof {
            use_type_invariant(self);
        }
        let ghost pairs = entry_views(self.entries@);
        let mut i: usize = 0;
        while i < self.entries.len()
            invariant
                i <= self.entries.len(),
                pairs == entry_views(self.entries@),
                ascending(pairs),
                self@ == pairs_map(pairs),
                forall|j: int| 0 <= j < i ==> pairs[j].0 != key@,
            decreases self.entries.len() - i,
        {
            let entry = &self.entries[i];
            assert(pairs[i as int] == (entry.0@, entry.1@));
            if crate::text::same_text(entry.0.as_str(), key) {
                proof {
                    assert(has_key_at(pairs, key@, i as int));
                    lemma_key_stands_once(pairs, key@, i as int);
                }
                return Some(&entry.1);
            }
            i = i + 1;
        }
        None
    }

    /// Puts `value` under `key`, in place of what stood there.
    pub fn insert(&mut self, key: String, value: V)
        ensures
            final(self)@ == old(self)@.insert(key@, value@),
    {
        proof {
            use_type_invariant(&*self);
        }
        let ghost before = entry_views(self.entries@);
        let mut entries: Vec<(String, V)> = Vec::new();
        std::mem::swap(&mut entries, &mut self.entries);
        let mut i: usize = 0;
        let mut found: bool = false;
        while i < entries.len()
            invariant_except_break
                !found,
            invariant
                i <= entries.len(),
                before == entry_views(entries@),
                ascending(before),
                forall|j: int| 0 <= j < i ==> crate::text::text_before(#[trigger] before[j].0, key@),
            ensures
                found ==> i < entries.len() && before[i as int].0 == key@,
                !found && i < entries.len() ==> crate::text::text_before(key@, before[i as int].0),
            decreases entries.len() - i,
        {
            assert(before[i as int] == (entries[i as int].0@, entries[i as int].1@));
            match place(entries[i].0.as_str(), key.as_str()) {
                Placed::Before => {
                    i = i + 1;
                },
                Placed::Same => {
                    found = true;
                    break;
                },
                Placed::After => {
                    break;
                },
            }
        }
        let ghost pair = (key@, value@);
        if found {
            entries.set(i, (key, value));
        } else {
            entries.insert(i, (key, value));
        }
        proof {
            let after = entry_views(entries@);
            if found {
                assert(after =~= before.update(i as int, pair));
            } else {
                assert(after =~= before.insert(i as int, pair));
            }
            lemma_insert_pair(before, after, pair, i as int, found);
        }
        self.entries = entries;
    }
}

impl TextMap<String> {
    /// Whether the two hold the same texts under the same keys.
    pub fn same(&self, other: &Labels) -> (same: bool)
        ensures
            same == (self@ == other@),
    {
        proof {
            use_type_invariant(self);
            use_type_invariant(other);
        }
        let ghost left = entry_views(self.entries@);
        let ghost right = entry_views(other.entries@);
        proof {
            if self@ == other@ {
                lemma_map_determines_pairs(left, right);
            }
        }
        if self.entries.len() != other.entries.len() {
            return false;
        }
        let mut i: usize = 0;
        while i < self.entries.len()
            invariant
                i <= self.entries.len(),
                self.entries.len() == other.entries.len(),
                left == entry_views(self.entries@),
                right == entry_views(other.entries@),
                self@ == other@ ==> left == right,
                forall|j: int| 0 <= j < i ==> left[j] == right[j],
            decreases self.entries.len() - i,
        {
            let mine = &self.entries[i];
            let theirs = &other.entries[i];
            assert(left[i as int] == (mine.0@, mine.1@));
            assert(right[i as int] == (theirs.0@, theirs.1@));
            if !crate::text::same_text(mine.0.as_str(), theirs.0.as_str())
                || !crate::text::same_text(mine.1.as_str(), theirs.1.as_str()) {
                return false;
            }
            i = i + 1;
        }
        assert(left =~= right);
        true
    }
}

/// Putting a pair in its place among ascending pairs keeps them ascending and inserts it in their
/// map.
proof fn lemma_insert_pair<M>(
    before: Seq<(Seq<char>, M)>,
    after: Seq<(Seq<char>, M)>,
    pair: (Seq<char>, M),
    i: int,
    found: bool,
)
    requires
        ascending(before),
        0 <= i <= before.len(),
        forall|j: int| 0 <= j < i ==> crate::text::text_before(#[trigger] before[j].0, pair.0),
        found ==> i < before.len() && before[i].0 == pair.0 && after == before.update(i, pair),
        !found ==> after == before.insert(i, pair),
        !found && i < before.len() ==> crate::text::text_before(pair.0, before[i].0),
    ensures
        ascending(after),
        pairs_map(after) == pairs_map(before).insert(pair.0, pair.1),
{
    let inserted = pairs_map(before).insert(pair.0, pair.1);
    assert forall|a: int, b: int| 0 <= a < b < after.len() implies crate::text::text_before(
        #[trigger] after[a].0,
        #[trigger] after[b].0,
    ) by {
        if found {
            assert(crate::text::text_before(before[a].0, before[b].0));
        } else if b < i {
            assert(crate::text::text_before(before[a].0, before[b].0));
        } else if b == i {
        } else if a == i {
            if b - 1 > i {
                assert(crate::text::text_before(before[i].0, before[b - 1].0));
                crate::text::lemma_text_before_total_order(pair.0, before[i].0, before[b - 1].0);
            }
        } else if a < i {
            assert(crate::text::text_before(before[a].0, before[b - 1].0));
        } else {
            assert(crate::text::text_before(before[a - 1].0, before[b - 1].0));
        }
    }
    assert(has_key_at(after, pair.0, i));
    assert forall|key: Seq<char>| pairs_map(after).contains_key(key) <==> inserted.contains_key(
        key,
    ) by {
        if pairs_map(after).contains_key(key) && key != pair.0 {
            let a = choose|a: int| has_key_at(after, key, a);
            if found || a < i {
                assert(has_key_at(before, key, a));
            } else {
                assert(has_key_at(before, key, a - 1));
            }
        }
        if pairs_map(before).contains_key(key) && key != pair.0 {
            let b = choose|b: int| has_key_at(before, key, b);
            if found || b < i {
                assert(has_key_at(after, key, b));
            } else {
                assert(has_key_at(after, key, b + 1));
            }
        }
    }
    assert forall|key: Seq<char>| pairs_map(after).contains_key(key) implies pairs_map(after)[key]
        == inserted[key] by {
        let a = choose|a: int| has_key_at(after, key, a);
        lemma_key_stands_once(after, key, a);
        if key == pair.0 {
            lemma_key_stands_once(after, key, i);
        } else if found || a < i {
            assert(has_key_at(before, key, a));
            lemma_key_stands_once(before, key, a);
        } else {
            assert(has_key_at(before, key, a - 1));
            lemma_key_stands_once(before, key, a - 1);
        }
    }
    assert(pairs_map(after) =~= inserted);
}

impl Clone for TextMap<String> {
    fn clone(&self) -> (copy: Self)
        ensures
            copy@ == self@,
    {
        proof {
            use_type_invariant(self);
        }
        let ghost texts = entry_views(self.entries@);
        let mut entries: Vec<(String, String)> = Vec::new();
        let mut i: usize = 0;
        while i < self.entries.len()
            invariant
                i <= self.entries.len(),
                texts == entry_views(self.entries@),
                entries.len() == i,
                forall|j: int| 0 <= j < i ==> entry_views(entries@)[j] == texts[j],
            decreases self.entries.len() - i,
        {
            let entry = &self.entries[i];
            entries.push((entry.0.clone(), entry.1.clone()));
            i = i + 1;
        }
        assert(entry_views(entries@) =~= texts);
        TextMap { entries }
    }
}

/// The pairs of a finite map are its entries: each key stands once, with its value, and an earlier
/// key comes before a later one.
pub proof fn law_sorted_pairs_are_the_entries<M>(map: Map<Seq<char>, M>, key: Seq<char>) -> (at: int)
    requires
        map.dom().finite(),
    ensures
        forall|i: int, j: int|
            0 <= i < j < sorted_pairs(map).len() ==> crate::text::text_before(
                #[trigger] sorted_pairs(map)[i].0,
                #[trigger] sorted_pairs(map)[j].0,
            ),
        forall|i: int|
            0 <= i < sorted_pairs(map).len() ==> map.contains_key(
                (#[trigger] sorted_pairs(map)[i]).0,
            ) && map[sorted_pairs(map)[i].0] == sorted_pairs(map)[i].1,
        map.contains_key(key) ==> 0 <= at < sorted_pairs(map).len() && sorted_pairs(map)[at] == (
            key,
            map[key],
        ),
{
    let pairs = sorted_pairs(map);
    lemma_finite_map_is_sorted(map);
    assert forall|i: int| 0 <= i < pairs.len() implies map.contains_key((#[trigger] pairs[i]).0)
        && map[pairs[i].0] == pairs[i].1 by {
        assert(has_key_at(pairs, pairs[i].0, i));
        lemma_key_stands_once(pairs, pairs[i].0, i);
    }
    if map.contains_key(key) {
        assert(pairs_map(pairs).contains_key(key));
        let at = choose|i: int| has_key_at(pairs, key, i);
        lemma_key_stands_once(pairs, key, at);
        at
    } else {
        0
    }
}

} // verus!
