//! A map from strings to values, kept as a list of entries with distinct keys.

use vstd::prelude::*;

verus! {

/// Whether no key occurs twice in `entries`.
spec fn distinct_keys<V>(entries: Seq<(String, V)>) -> bool {
    forall|i: int, j: int|
        0 <= i < j < entries.len() ==> #[trigger] entries[i].0@ != #[trigger] entries[j].0@
}

/// Whether the entry at `i` has the key `key`.
spec fn key_at<V>(entries: Seq<(String, V)>, key: Seq<char>, i: int) -> bool {
    0 <= i < entries.len() && entries[i].0@ == key
}

/// The map that `pairs` describes when a later pair replaces an earlier one
/// with the same key.
pub open spec fn pairs_map<V>(pairs: Seq<(String, V)>) -> Map<Seq<char>, V>
    decreases pairs.len(),
{
    if pairs.len() == 0 {
        Map::empty()
    } else {
        pairs_map(pairs.drop_last()).insert(pairs.last().0@, pairs.last().1)
    }
}

/// The texts of a list of keys.
pub open spec fn view_keys(keys: Seq<String>) -> Seq<Seq<char>> {
    keys.map_values(|key: String| key@)
}

/// With distinct keys, a key is in the map exactly when an entry has it, and it
/// is mapped to that entry's value.
proof fn lemma_distinct_pairs<V>(entries: Seq<(String, V)>)
    requires
        distinct_keys(entries),
    ensures
        forall|i: int|
            0 <= i < entries.len() ==> pairs_map(entries).contains_key(
                (#[trigger] entries[i]).0@,
            ) && pairs_map(entries)[entries[i].0@] == entries[i].1,
        forall|key: Seq<char>| #[trigger]
            pairs_map(entries).contains_key(key) ==> exists|i: int| key_at(entries, key, i),
    decreases entries.len(),
{
    if entries.len() > 0 {
        let init = entries.drop_last();
        let n = init.len() as int;
        lemma_distinct_pairs(init);
        assert forall|i: int| 0 <= i < entries.len() implies pairs_map(entries).contains_key(
            (#[trigger] entries[i]).0@,
        ) && pairs_map(entries)[entries[i].0@] == entries[i].1 by {
            if i < n {
                assert(init[i] == entries[i]);
                assert(entries[i].0@ != entries[n].0@);
            }
        }
        assert forall|key: Seq<char>| #[trigger]
            pairs_map(entries).contains_key(key) implies exists|i: int| key_at(
            entries,
            key,
            i,
        ) by {
            if key == entries[n].0@ {
                assert(key_at(entries, key, n));
            } else {
                assert(pairs_map(init).contains_key(key));
                let i = choose|i: int| key_at(init, key, i);
                assert(key_at(entries, key, i));
            }
        }
    }
}

/// Replacing the value of an entry replaces the value of its key.
proof fn lemma_replace<V>(entries: Seq<(String, V)>, i: int, key: String, value: V)
    requires
        distinct_keys(entries),
        key_at(entries, key@, i),
    ensures
        distinct_keys(entries.update(i, (key, value))),
        pairs_map(entries.update(i, (key, value))) == pairs_map(entries).insert(key@, value),
{
    let after = entries.update(i, (key, value));
    assert(forall|j: int| 0 <= j < after.len() ==> (#[trigger] after[j]).0@ == entries[j].0@);
    assert forall|a: int, b: int| 0 <= a < b < after.len() implies #[trigger] after[a].0@
        != #[trigger] after[b].0@ by {
        assert(entries[a].0@ != entries[b].0@);
    }
    lemma_distinct_pairs(entries);
    lemma_distinct_pairs(after);
    let m = pairs_map(entries).insert(key@, value);
    assert forall|k: Seq<char>| #[trigger] pairs_map(after).contains_key(k) <==> m.contains_key(
        k,
    ) by {
        if pairs_map(after).contains_key(k) {
            let j = choose|j: int| key_at(after, k, j);
            assert(entries[j].0@ == k);
        }
        if pairs_map(entries).contains_key(k) {
            let j = choose|j: int| key_at(entries, k, j);
            assert(after[j].0@ == k);
        }
        assert(after[i].0@ == key@);
    }
    assert forall|k: Seq<char>| pairs_map(after).contains_key(k) implies #[trigger] pairs_map(
        after,
    )[k] == m[k] by {
        let j = choose|j: int| key_at(after, k, j);
        assert(after[j].0@ == k && entries[j].0@ == k);
        assert(entries[i].0@ == key@);
    }
    assert(pairs_map(after) =~= m);
}

/// Taking out an entry takes out its key.
proof fn lemma_take_out<V>(entries: Seq<(String, V)>, i: int)
    requires
        distinct_keys(entries),
        0 <= i < entries.len(),
    ensures
        distinct_keys(entries.remove(i)),
        pairs_map(entries.remove(i)) == pairs_map(entries).remove(entries[i].0@),
{
    let after = entries.remove(i);
    let key = entries[i].0@;
    assert(forall|j: int|
        0 <= j < after.len() ==> #[trigger] after[j] == entries[if j < i {
            j
        } else {
            j + 1
        }]);
    assert forall|a: int, b: int| 0 <= a < b < after.len() implies #[trigger] after[a].0@
        != #[trigger] after[b].0@ by {
        let x = if a < i {
            a
        } else {
            a + 1
        };
        let y = if b < i {
            b
        } else {
            b + 1
        };
        assert(entries[x].0@ != entries[y].0@);
    }
    lemma_distinct_pairs(entries);
    lemma_distinct_pairs(after);
    let m = pairs_map(entries).remove(key);
    assert forall|k: Seq<char>| #[trigger] pairs_map(after).contains_key(k) <==> m.contains_key(
        k,
    ) by {
        if pairs_map(after).contains_key(k) {
            let j = choose|j: int| key_at(after, k, j);
            let x = if j < i {
                j
            } else {
                j + 1
            };
            assert(after[j] == entries[x]);
            assert(entries[x].0@ == k);
            assert(x != i);
        }
        if m.contains_key(k) {
            let x = choose|x: int| key_at(entries, k, x);
            assert(x != i);
            let j = if x < i {
                x
            } else {
                x - 1
            };
            assert(after[j] == entries[x]);
        }
    }
    assert forall|k: Seq<char>| pairs_map(after).contains_key(k) implies #[trigger] pairs_map(
        after,
    )[k] == m[k] by {
        let j = choose|j: int| key_at(after, k, j);
        let x = if j < i {
            j
        } else {
            j + 1
        };
        assert(after[j] == entries[x]);
    }
    assert(pairs_map(after) =~= m);
}

/// A map from strings to values.
#[derive(Debug)]
pub struct StringMap<V> {
    entries: Vec<(String, V)>,
}

impl<V> View for StringMap<V> {
    type V = Map<Seq<char>, V>;

    closed spec fn view(&self) -> Map<Seq<char>, V> {
        pairs_map(self.entries@)
    }
}

impl<V> StringMap<V> {
    #[verifier::type_invariant]
    spec fn keys_are_distinct(self) -> bool {
        distinct_keys(self.entries@)
    }

    /// The empty map.
    pub fn new() -> (map: Self)
        ensures
            map@ == Map::<Seq<char>, V>::empty(),
    {
        StringMap { entries: Vec::new() }
    }

    /// The map that `pairs` describes, where a later pair replaces an earlier
    /// one with the same key.
    pub fn from_pairs(pairs: Vec<(String, V)>) -> (map: Self)
        ensures
            map@ == pairs_map(pairs@),
    {
        let mut map: StringMap<V> = StringMap::new();
        let ghost all = pairs@;
        let mut rest: Vec<(String, V)> = pairs;
        let mut turned: Vec<(String, V)> = Vec::new();
        while rest.len() > 0
            invariant
                rest@.len() + turned@.len() == all.len(),
                rest@ == all.take(rest@.len() as int),
                turned@ == all.skip(rest@.len() as int).reverse(),
            decreases rest@.len(),
        {
            let ghost n = rest@.len() as int;
            match rest.pop() {
                Some(pair) => {
                    turned.push(pair);
                    assert(rest@ =~= all.take(n - 1));
                    assert(turned@ =~= all.skip(n - 1).reverse());
                },
                None => {},
            }
        }
        while turned.len() > 0
            invariant
                turned@.len() <= all.len(),
                turned@ == all.skip(all.len() - turned@.len()).reverse(),
                map@ == pairs_map(all.take(all.len() - turned@.len())),
            decreases turned@.len(),
        {
            let ghost n = all.len() - turned@.len();
            match turned.pop() {
                Some(pair) => {
                    assert(pair == all[n]);
                    map.insert(pair.0, pair.1);
                    assert(turned@ =~= all.skip(n + 1).reverse());
                    assert(all.take(n + 1).drop_last() =~= all.take(n));
                },
                None => {},
            }
        }
        assert(all.take(all.len() as int) =~= all);
        map
    }

    /// The index of the entry with the given key.
    fn position(entries: &Vec<(String, V)>, key: &str) -> (found: Option<usize>)
        ensures
            match found {
                Some(i) => key_at(entries@, key@, i as int),
                None => forall|i: int| !key_at(entries@, key@, i),
            },
    {
        let wanted: String = key.to_owned();
        let mut i: usize = 0;
        while i < entries.len()
            invariant
                i <= entries@.len(),
                wanted@ == key@,
                forall|j: int| 0 <= j < i ==> !key_at(entries@, key@, j),
            decreases entries@.len() - i,
        {
            if entries[i].0 == wanted {
                return Some(i);
            }
            i += 1;
        }
        None
    }

    /// The value stored under `key`.
    pub fn get(&self, key: &str) -> (value: Option<&V>)
        ensures
            match value {
                Some(v) => self@.contains_key(key@) && self@[key@] == *v,
                None => !self@.contains_key(key@),
            },
    {
        proof {
            use_type_invariant(self);
            lemma_distinct_pairs(self.entries@);
        }
        match Self::position(&self.entries, key) {
            Some(i) => Some(&self.entries[i].1),
            None => None,
        }
    }

    /// Whether a value is stored under `key`.
    pub fn contains_key(&self, key: &str) -> (found: bool)
        ensures
            found == self@.contains_key(key@),
    {
        self.get(key).is_some()
    }

    /// The keys, each once and in no particular order.
    pub fn keys(&self) -> (keys: Vec<String>)
        ensures
            view_keys(keys@).no_duplicates(),
            view_keys(keys@).to_set() == self@.dom(),
    {
        proof {
            use_type_invariant(self);
            lemma_distinct_pairs(self.entries@);
        }
        let mut keys: Vec<String> = Vec::new();
        let mut i: usize = 0;
        while i < self.entries.len()
            invariant
                i <= self.entries@.len(),
                keys@.len() == i,
                forall|j: int| 0 <= j < i ==> (#[trigger] keys@[j])@ == self.entries@[j].0@,
            decreases self.entries@.len() - i,
        {
            keys.push(self.entries[i].0.clone());
            i += 1;
        }
        proof {
            let texts = view_keys(keys@);
            let entries = self.entries@;
            assert forall|a: int, b: int|
                0 <= a < texts.len() && 0 <= b < texts.len() && a != b implies texts[a]
                != texts[b] by {
                if a < b {
                    assert(entries[a].0@ != entries[b].0@);
                } else {
                    assert(entries[b].0@ != entries[a].0@);
                }
            }
            assert forall|key: Seq<char>| #[trigger]
                texts.to_set().contains(key) <==> self@.dom().contains(key) by {
                if texts.contains(key) {
                    let j = choose|j: int| 0 <= j < texts.len() && texts[j] == key;
                    assert(entries[j].0@ == key);
                }
                if pairs_map(entries).contains_key(key) {
                    let j = choose|j: int| key_at(entries, key, j);
                    assert(texts[j] == key);
                }
            }
            assert(texts.to_set() =~= self@.dom());
        }
        keys
    }

    /// Stores `value` under `key`, in place of any value already there.
    pub fn insert(&mut self, key: String, value: V)
        ensures
            final(self)@ == old(self)@.insert(key@, value),
    {
        proof {
            use_type_invariant(&*self);
        }
        let mut entries: Vec<(String, V)> = Vec::new();
        std::mem::swap(&mut entries, &mut self.entries);
        let ghost before = entries@;
        match Self::position(&entries, key.as_str()) {
            Some(i) => {
                proof {
                    lemma_replace(before, i as int, key, value);
                }
                entries.set(i, (key, value));
            },
            None => {
                let ghost k: Seq<char> = key@;
                entries.push((key, value));
                proof {
                    assert forall|a: int, b: int| 0 <= a < b < entries@.len() implies #[trigger]
                    entries@[a].0@ != #[trigger] entries@[b].0@ by {
                        assert(entries@[a] == before[a]);
                        assert(!key_at(before, k, a));
                    }
                    assert(entries@.drop_last() =~= before);
                }
            },
        }
        self.entries = entries;
    }

    /// Takes out the value stored under `key`.
    pub fn remove(&mut self, key: &str) -> (value: Option<V>)
        ensures
            final(self)@ == old(self)@.remove(key@),
            match value {
                Some(v) => old(self)@.contains_key(key@) && old(self)@[key@] == v,
                None => !old(self)@.contains_key(key@),
            },
    {
        proof {
            use_type_invariant(&*self);
            lemma_distinct_pairs(self.entries@);
        }
        let mut entries: Vec<(String, V)> = Vec::new();
        std::mem::swap(&mut entries, &mut self.entries);
        let found: Option<usize> = Self::position(&entries, key);
        match found {
            Some(i) => {
                proof {
                    lemma_take_out(entries@, i as int);
                }
                let entry: (String, V) = entries.remove(i);
                self.entries = entries;
                Some(entry.1)
            },
            None => {
                self.entries = entries;
                assert(self@.remove(key@) =~= self@);
                None
            },
        }
    }

    /// Takes out every value.
    pub fn clear(&mut self)
        ensures
            final(self)@ == Map::<Seq<char>, V>::empty(),
    {
        self.entries = Vec::new();
    }

    /// Stores every entry of `other`, in place of any value already there.
    pub fn extend(&mut self, other: StringMap<V>)
        ensures
            final(self)@ == old(self)@.union_prefer_right(other@),
    {
        let ghost start = self@;
        let ghost all = other.entries@;
        proof {
            use_type_invariant(&other);
            lemma_distinct_pairs(all);
        }
        let StringMap { entries: mut rest } = other;
        proof {
            assert(start.union_prefer_right(pairs_map(all.skip(all.len() as int))) =~= start);
        }
        while rest.len() > 0
            invariant
                rest@.len() <= all.len(),
                distinct_keys(all),
                rest@ == all.take(rest@.len() as int),
                self@ == start.union_prefer_right(pairs_map(all.skip(rest@.len() as int))),
            decreases rest@.len(),
        {
            let ghost n = rest@.len() as int;
            match rest.pop() {
                Some(entry) => {
                    assert(entry == all[n - 1]);
                    self.insert(entry.0, entry.1);
                    assert(rest@ =~= all.take(n - 1));
                    proof {
                        lemma_skip_one(all, n);
                        assert(self@ =~= start.union_prefer_right(
                            pairs_map(all.skip(n - 1)),
                        ));
                    }
                },
                None => {},
            }
        }
        assert(all.skip(0) =~= all);
    }
}

/// With distinct keys, one more entry in front adds that entry to the map.
proof fn lemma_skip_one<V>(entries: Seq<(String, V)>, n: int)
    requires
        distinct_keys(entries),
        0 < n <= entries.len(),
    ensures
        pairs_map(entries.skip(n - 1)) == pairs_map(entries.skip(n)).insert(
            entries[n - 1].0@,
            entries[n - 1].1,
        ),
    decreases entries.len() - n,
{
    let more = entries.skip(n - 1);
    let less = entries.skip(n);
    if n == entries.len() {
        assert(more.drop_last() =~= less);
        assert(pairs_map(less) =~= Map::empty());
        assert(pairs_map(more.drop_last()) =~= Map::empty());
    } else {
        let init = entries.drop_last();
        assert(distinct_keys(init)) by {
            assert forall|i: int, j: int| 0 <= i < j < init.len() implies #[trigger] init[i].0@
                != #[trigger] init[j].0@ by {
                assert(entries[i].0@ != entries[j].0@);
            }
        }
        lemma_skip_one(init, n);
        assert(more.drop_last() =~= init.skip(n - 1));
        assert(less.drop_last() =~= init.skip(n));
        assert(entries[n - 1].0@ != entries.last().0@);
        assert(pairs_map(more) =~= pairs_map(less).insert(entries[n - 1].0@, entries[n - 1].1));
    }
}

impl<V: Clone> Clone for StringMap<V> {
    fn clone(&self) -> (copy: Self)
        ensures
            copy@.dom() == self@.dom(),
            forall|key: Seq<char>| #[trigger]
                self@.contains_key(key) ==> cloned::<V>(self@[key], copy@[key]),
    {
        proof {
            use_type_invariant(self);
        }
        let mut entries: Vec<(String, V)> = Vec::new();
        let mut i: usize = 0;
        while i < self.entries.len()
            invariant
                i <= self.entries@.len(),
                entries@.len() == i,
                forall|j: int|
                    0 <= j < i ==> (#[trigger] entries@[j]).0 == self.entries@[j].0 && cloned::<V>(
                        self.entries@[j].1,
                        entries@[j].1,
                    ),
            decreases self.entries@.len() - i,
        {
            let key: String = self.entries[i].0.clone();
            let value: V = self.entries[i].1.clone();
            entries.push((key, value));
            i += 1;
        }
        proof {
            assert forall|a: int, b: int| 0 <= a < b < entries@.len() implies #[trigger]
            entries@[a].0@ != #[trigger] entries@[b].0@ by {
                assert(self.entries@[a].0@ != self.entries@[b].0@);
            }
            lemma_distinct_pairs(self.entries@);
            lemma_distinct_pairs(entries@);
        }
        let copy = StringMap { entries };
        proof {
            assert forall|key: Seq<char>| #[trigger]
                self@.contains_key(key) implies copy@.contains_key(key) && cloned::<V>(
                self@[key],
                copy@[key],
            ) by {
                let j = choose|j: int| key_at(self.entries@, key, j);
                assert(copy.entries@[j].0 == self.entries@[j].0);
            }
            assert forall|key: Seq<char>| #[trigger]
                copy@.contains_key(key) implies self@.contains_key(key) by {
                let j = choose|j: int| key_at(copy.entries@, key, j);
                assert(self.entries@[j].0@ == key);
            }
            assert(copy@.dom() =~= self@.dom());
        }
        copy
    }
}

} // verus!
