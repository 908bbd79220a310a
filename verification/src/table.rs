//! A small map from text keys to values, kept as a list of entries with
//! distinct keys.

use crate::text::str_equal;
use vstd::prelude::*;

verus! {

/// Position of the entry with the given key, if there is one.
pub open spec fn position_of<V>(entries: Seq<(String, V)>, key: Seq<char>) -> Option<int> {
    if exists|i: int| 0 <= i < entries.len() && (#[trigger] entries[i]).0@ == key {
        Some(choose|i: int| 0 <= i < entries.len() && (#[trigger] entries[i]).0@ == key)
    } else {
        None
    }
}

/// Whether no two entries have the same key.
pub open spec fn distinct_keys<V>(entries: Seq<(String, V)>) -> bool {
    forall|i: int, j: int|
        0 <= i < j < entries.len() ==> (#[trigger] entries[i]).0@ != (#[trigger] entries[j]).0@
}

/// The map that a list of entries stands for.
pub open spec fn map_of<V>(entries: Seq<(String, V)>) -> Map<Seq<char>, V> {
    Map::new(
        |key: Seq<char>| position_of(entries, key) is Some,
        |key: Seq<char>| entries[position_of(entries, key).unwrap()].1,
    )
}

proof fn lemma_position_of<V>(entries: Seq<(String, V)>, key: Seq<char>, i: int)
    requires
        distinct_keys(entries),
        0 <= i < entries.len(),
        entries[i].0@ == key,
    ensures
        position_of(entries, key) == Some(i),
        map_of(entries).contains_key(key),
        map_of(entries)[key] == entries[i].1,
{
    let c = choose|c: int| 0 <= c < entries.len() && (#[trigger] entries[c]).0@ == key;
    if c < i {
        assert(entries[c].0@ != entries[i].0@);
    } else if i < c {
        assert(entries[i].0@ != entries[c].0@);
    }
}

proof fn lemma_replace<V>(entries: Seq<(String, V)>, i: int, key: String, value: V)
    requires
        distinct_keys(entries),
        0 <= i < entries.len(),
        entries[i].0@ == key@,
    ensures
        distinct_keys(entries.update(i, (key, value))),
        map_of(entries.update(i, (key, value))) == map_of(entries).insert(key@, value),
{
    let after = entries.update(i, (key, value));
    assert forall|a: int, b: int| 0 <= a < b < after.len() implies (#[trigger] after[a]).0@ != (
    #[trigger] after[b]).0@ by {
        assert(after[a].0@ == entries[a].0@);
        assert(after[b].0@ == entries[b].0@);
    }
    let target = map_of(entries).insert(key@, value);
    assert forall|k: Seq<char>|
        (#[trigger] map_of(after).dom().contains(k)) == target.dom().contains(k) && (map_of(
            after,
        ).dom().contains(k) ==> map_of(after)[k] == target[k]) by {
        if position_of(after, k) is Some {
            let p = position_of(after, k).unwrap();
            assert(entries[p].0@ == k);
            lemma_position_of(entries, k, p);
            lemma_position_of(after, k, p);
        }
        if position_of(entries, k) is Some {
            let p = position_of(entries, k).unwrap();
            assert(after[p].0@ == k);
            lemma_position_of(after, k, p);
        }
        if k == key@ {
            lemma_position_of(after, k, i);
        }
    }
    assert(map_of(after) =~= target);
}

proof fn lemma_append<V>(entries: Seq<(String, V)>, key: String, value: V)
    requires
        distinct_keys(entries),
        position_of(entries, key@) is None,
    ensures
        distinct_keys(entries.push((key, value))),
        map_of(entries.push((key, value))) == map_of(entries).insert(key@, value),
{
    let after = entries.push((key, value));
    assert forall|a: int, b: int| 0 <= a < b < after.len() implies (#[trigger] after[a]).0@ != (
    #[trigger] after[b]).0@ by {
        assert(after[a] == entries[a]);
        if b < entries.len() {
            assert(after[b] == entries[b]);
        }
    }
    let target = map_of(entries).insert(key@, value);
    assert forall|k: Seq<char>|
        (#[trigger] map_of(after).dom().contains(k)) == target.dom().contains(k) && (map_of(
            after,
        ).dom().contains(k) ==> map_of(after)[k] == target[k]) by {
        if position_of(after, k) is Some {
            let p = position_of(after, k).unwrap();
            lemma_position_of(after, k, p);
            if p < entries.len() {
                assert(entries[p].0@ == k);
                lemma_position_of(entries, k, p);
            }
        }
        if position_of(entries, k) is Some {
            let p = position_of(entries, k).unwrap();
            assert(after[p].0@ == k);
            lemma_position_of(after, k, p);
        }
        if k == key@ {
            assert(after[entries.len() as int].0@ == k);
            lemma_position_of(after, k, entries.len() as int);
        }
    }
    assert(map_of(after) =~= target);
}

/// A map from text keys to values.
pub struct TextMap<V> {
    entries: Vec<(String, V)>,
}

impl<V> View for TextMap<V> {
    type V = Map<Seq<char>, V>;

    closed spec fn view(&self) -> Map<Seq<char>, V> {
        map_of(self.entries@)
    }
}

impl<V> TextMap<V> {
    /// Whether the map is well formed: no key occurs twice in its listing.
    pub closed spec fn wf(&self) -> bool {
        distinct_keys(self.entries@)
    }

    /// The entries in the order in which their keys were first inserted.
    pub closed spec fn listing(&self) -> Seq<(String, V)> {
        self.entries@
    }

    /// An empty map.
    pub fn new() -> (map: Self)
        ensures
            map.wf(),
            map@ == Map::<Seq<char>, V>::empty(),
            map.listing() == Seq::<(String, V)>::empty(),
    {
        let map = TextMap { entries: Vec::new() };
        assert(map@ =~= Map::<Seq<char>, V>::empty());
        map
    }

    fn find(&self, key: &str) -> (found: Option<usize>)
        requires
            self.wf(),
        ensures
            match found {
                Some(i) => i < self.entries.len() && self.entries[i as int].0@ == key@
                    && position_of(self.entries@, key@) == Some(i as int),
                None => position_of(self.entries@, key@) is None,
            },
    {
        let mut i: usize = 0;
        while i < self.entries.len()
            invariant
                self.wf(),
                i <= self.entries.len(),
                forall|k: int| 0 <= k < i ==> (#[trigger] self.entries[k]).0@ != key@,
            decreases self.entries.len() - i,
        {
            if str_equal(self.entries[i].0.as_str(), key) {
                proof {
                    lemma_position_of(self.entries@, key@, i as int);
                }
                return Some(i);
            }
            i = i + 1;
        }
        None
    }

    /// The value stored under `key`, if any.
    pub fn get(&self, key: &str) -> (value: Option<&V>)
        requires
            self.wf(),
        ensures
            match value {
                Some(v) => self@.contains_key(key@) && self@[key@] == *v,
                None => !self@.contains_key(key@),
            },
    {
        match self.find(key) {
            Some(i) => {
                proof {
                    lemma_position_of(self.entries@, key@, i as int);
                }
                Some(&self.entries[i].1)
            },
            None => None,
        }
    }

    /// Whether a value is stored under `key`.
    pub fn contains_key(&self, key: &str) -> (present: bool)
        requires
            self.wf(),
        ensures
            present == self@.contains_key(key@),
    {
        self.find(key).is_some()
    }

    /// Stores `value` under `key`, replacing what was stored there.
    pub fn insert(&mut self, key: String, value: V)
        requires
            old(self).wf(),
        ensures
            final(self).wf(),
            final(self)@ == old(self)@.insert(key@, value),
    {
        match self.find(key.as_str()) {
            Some(i) => {
                proof {
                    lemma_replace(self.entries@, i as int, key, value);
                }
                self.entries.set(i, (key, value));
            },
            None => {
                proof {
                    lemma_append(self.entries@, key, value);
                }
                self.entries.push((key, value));
            },
        }
    }

    /// A well-formed map has a listing with distinct keys and is the map
    /// that this listing stands for.
    pub proof fn lemma_listing(&self)
        requires
            self.wf(),
        ensures
            distinct_keys(self.listing()),
            self@ == map_of(self.listing()),
    {
    }

    /// Number of entries.
    pub fn len(&self) -> (n: usize)
        ensures
            n == self.listing().len(),
    {
        self.entries.len()
    }

    /// Gives up the map for its entries.
    pub fn into_entries(self) -> (entries: Vec<(String, V)>)
        ensures
            entries@ == self.listing(),
    {
        self.entries
    }

    /// The entry at position `i` of the listing, if there is one.
    pub fn entry(&self, i: usize) -> (e: Option<(&String, &V)>)
        ensures
            match e {
                Some((key, value)) => i < self.listing().len() && *key == self.listing()[i as int].0
                    && *value == self.listing()[i as int].1,
                None => i >= self.listing().len(),
            },
    {
        if i < self.entries.len() {
            Some((&self.entries[i].0, &self.entries[i].1))
        } else {
            None
        }
    }
}

/// The values of the rows with the given key, in the order of the rows.
pub open spec fn values_with_key<V>(rows: Seq<(String, V)>, key: Seq<char>) -> Seq<V>
    decreases rows.len(),
{
    if rows.len() == 0 {
        Seq::empty()
    } else if rows.last().0@ == key {
        values_with_key(rows.drop_last(), key).push(rows.last().1)
    } else {
        values_with_key(rows.drop_last(), key)
    }
}

/// Whether `groups` holds, for every key that occurs among the rows, the
/// values of the rows with that key in their order, and nothing else.
pub open spec fn is_grouping<V>(rows: Seq<(String, V)>, groups: Map<Seq<char>, Vec<V>>) -> bool {
    forall|key: Seq<char>|
        {
            &&& #[trigger] groups.contains_key(key) <==> values_with_key(rows, key).len() > 0
            &&& groups.contains_key(key) ==> groups[key]@ == values_with_key(rows, key)
        }
}

impl<V> TextMap<Vec<V>> {
    /// Appends `value` to the list stored under `key`, which is created if
    /// there is none.
    pub fn append_to(&mut self, key: String, value: V)
        requires
            old(self).wf(),
        ensures
            final(self).wf(),
            final(self)@.dom() == old(self)@.dom().insert(key@),
            final(self)@[key@]@ == if old(self)@.contains_key(key@) {
                old(self)@[key@]@.push(value)
            } else {
                seq![value]
            },
            forall|other: Seq<char>|
                other != key@ && old(self)@.contains_key(other) ==> final(self)@[other] == old(
                    self,
                )@[other],
    {
        match self.find(key.as_str()) {
            Some(i) => {
                let ghost before = self.entries@;
                let list = &mut self.entries[i].1;
                list.push(value);
                proof {
                    let after = self.entries@;
                    assert(after == before.update(i as int, (before[i as int].0, after[i as int].1)));
                    lemma_replace(before, i as int, before[i as int].0, after[i as int].1);
                    lemma_position_of(before, key@, i as int);
                    assert(self@.dom() =~= old(self)@.dom().insert(key@));
                }
            },
            None => {
                let mut list: Vec<V> = Vec::new();
                list.push(value);
                proof {
                    lemma_append(self.entries@, key, list);
                }
                self.entries.push((key, list));
                proof {
                    assert(self@.dom() =~= old(self)@.dom().insert(key@));
                }
            },
        }
    }
}

/// Groups rows by their key: every key is mapped to the values of its rows
/// in the order in which they came.
pub fn group_by_key<V>(rows: Vec<(String, V)>) -> (groups: TextMap<Vec<V>>)
    ensures
        groups.wf(),
        is_grouping(rows@, groups@),
{
    let mut groups: TextMap<Vec<V>> = TextMap::new();
    assert(rows@.take(0) =~= Seq::<(String, V)>::empty());
    for row in iter: rows
        invariant
            iter.seq() == rows@,
            groups.wf(),
            is_grouping(rows@.take(iter.index() as int), groups@),
    {
        let ghost n = iter.index() as int;
        let ghost seen = rows@.take(n);
        let ghost before = groups@;
        proof {
            assert(rows@.take(n + 1).drop_last() =~= seen);
            assert(rows@.take(n + 1).last() == row);
        }
        let (key, value) = row;
        groups.append_to(key, value);
        proof {
            let more = rows@.take(n + 1);
            assert forall|k: Seq<char>|
                {
                    &&& #[trigger] groups@.contains_key(k) <==> values_with_key(more, k).len() > 0
                    &&& groups@.contains_key(k) ==> groups@[k]@ == values_with_key(more, k)
                } by {
                assert(before.contains_key(k) <==> values_with_key(seen, k).len() > 0);
                if k != key@ {
                    assert(groups@.dom().contains(k) == before.dom().contains(k));
                }
            }
        }
    }
    assert(rows@.take(rows@.len() as int) =~= rows@);
    groups
}

} // verus!
