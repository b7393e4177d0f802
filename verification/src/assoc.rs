//! A small string-keyed map that keeps its entries in insertion order.
//!
//! Records of the application (a student's form answers, a scholarship's
//! fields, the requirement selection of a scholarship) are maps from field
//! names to values. `AssocMap` holds them as a vector of `(key, value)` pairs
//! in which no key occurs twice; its view is the mathematical map.
use vstd::prelude::*;
use crate::text::str_equal;

verus! {

/// No key occurs twice among `s`.
pub open spec fn distinct_keys<V>(s: Seq<(String, V)>) -> bool {
    forall|i: int, j: int|
        0 <= i < s.len() && 0 <= j < s.len() && i != j ==> #[trigger] s[i].0@ != #[trigger] s[j].0@
}

/// Whether some entry of `s` has the key `k`.
pub open spec fn has_key<V>(s: Seq<(String, V)>, k: Seq<char>) -> bool {
    exists|i: int| 0 <= i < s.len() && #[trigger] s[i].0@ == k
}

/// An index of `s` whose entry has the key `k` (meaningful when `has_key(s, k)`).
pub open spec fn key_index<V>(s: Seq<(String, V)>, k: Seq<char>) -> int {
    choose|i: int| 0 <= i < s.len() && #[trigger] s[i].0@ == k
}

/// The map that the entries `s` stand for.
pub open spec fn key_map<V>(s: Seq<(String, V)>) -> Map<Seq<char>, V> {
    Map::new(|k: Seq<char>| has_key(s, k), |k: Seq<char>| s[key_index(s, k)].1)
}

/// The keys of `s`, in order.
pub open spec fn key_seq<V>(s: Seq<(String, V)>) -> Seq<Seq<char>> {
    s.map_values(|e: (String, V)| e.0@)
}

/// With distinct keys, the entry at `i` is what the map holds for its key.
pub proof fn lemma_key_map_at<V>(s: Seq<(String, V)>, i: int)
    requires
        distinct_keys(s),
        0 <= i < s.len(),
    ensures
        key_map(s).contains_key(s[i].0@),
        key_map(s)[s[i].0@] == s[i].1,
        key_index(s, s[i].0@) == i,
{
    assert(has_key(s, s[i].0@));
    let j = key_index(s, s[i].0@);
    assert(s[j].0@ == s[i].0@);
}

/// Appending an entry with a new key inserts it into the map.
pub proof fn lemma_key_map_push<V>(s: Seq<(String, V)>, e: (String, V))
    requires
        distinct_keys(s),
        !has_key(s, e.0@),
    ensures
        distinct_keys(s.push(e)),
        key_map(s.push(e)) == key_map(s).insert(e.0@, e.1),
{
    let t = s.push(e);
    assert forall|i: int, j: int|
        0 <= i < t.len() && 0 <= j < t.len() && i != j implies #[trigger] t[i].0@ != #[trigger] t[j].0@ by {
        if i < s.len() && j < s.len() {
            assert(t[i] == s[i] && t[j] == s[j]);
        } else if i < s.len() {
            assert(t[i] == s[i]);
        } else {
            assert(t[j] == s[j]);
        }
    }
    assert forall|k: Seq<char>| #[trigger] has_key(t, k) == (has_key(s, k) || k == e.0@) by {
        if has_key(t, k) {
            let i = choose|i: int| 0 <= i < t.len() && #[trigger] t[i].0@ == k;
            if i < s.len() {
                assert(s[i] == t[i]);
            }
        }
        if has_key(s, k) {
            let i = choose|i: int| 0 <= i < s.len() && #[trigger] s[i].0@ == k;
            assert(t[i] == s[i]);
        }
        if k == e.0@ {
            assert(t[s.len() as int] == e);
        }
    }
    assert forall|k: Seq<char>| #[trigger] key_map(t).contains_key(k) implies key_map(t)[k] == key_map(
        s,
    ).insert(e.0@, e.1)[k] by {
        if k == e.0@ {
            assert(t[s.len() as int] == e);
            lemma_key_map_at(t, s.len() as int);
        } else {
            let i = key_index(s, k);
            assert(t[i] == s[i]);
            lemma_key_map_at(s, i);
            lemma_key_map_at(t, i);
        }
    }
    assert(key_map(t) =~= key_map(s).insert(e.0@, e.1));
}

/// Replacing the value of an existing entry updates the map at that key.
pub proof fn lemma_key_map_update<V>(s: Seq<(String, V)>, i: int, e: (String, V))
    requires
        distinct_keys(s),
        0 <= i < s.len(),
        s[i].0@ == e.0@,
    ensures
        distinct_keys(s.update(i, e)),
        key_map(s.update(i, e)) == key_map(s).insert(e.0@, e.1),
        key_seq(s.update(i, e)) == key_seq(s),
{
    let t = s.update(i, e);
    assert forall|a: int, b: int|
        0 <= a < t.len() && 0 <= b < t.len() && a != b implies #[trigger] t[a].0@ != #[trigger] t[b].0@ by {
        assert(t[a].0@ == s[a].0@);
        assert(t[b].0@ == s[b].0@);
    }
    assert forall|k: Seq<char>| #[trigger] has_key(t, k) == has_key(s, k) by {
        if has_key(t, k) {
            let a = choose|a: int| 0 <= a < t.len() && #[trigger] t[a].0@ == k;
            assert(s[a].0@ == t[a].0@);
        }
        if has_key(s, k) {
            let a = choose|a: int| 0 <= a < s.len() && #[trigger] s[a].0@ == k;
            assert(s[a].0@ == t[a].0@);
        }
    }
    lemma_key_map_at(s, i);
    assert forall|k: Seq<char>| #[trigger] key_map(t).contains_key(k) implies key_map(t)[k] == key_map(
        s,
    ).insert(e.0@, e.1)[k] by {
        let a = key_index(s, k);
        lemma_key_map_at(s, a);
        assert(t[a].0@ == s[a].0@);
        lemma_key_map_at(t, a);
        if a != i {
            assert(t[a] == s[a]);
        }
    }
    assert(key_map(t) =~= key_map(s).insert(e.0@, e.1));
    assert(key_seq(t) =~= key_seq(s));
}

/// Removing the entry at `i` removes its key from the map.
pub proof fn lemma_key_map_remove<V>(s: Seq<(String, V)>, i: int)
    requires
        distinct_keys(s),
        0 <= i < s.len(),
    ensures
        distinct_keys(s.remove(i)),
        key_map(s.remove(i)) == key_map(s).remove(s[i].0@),
{
    let t = s.remove(i);
    let k0 = s[i].0@;
    assert forall|a: int| 0 <= a < t.len() implies #[trigger] t[a] == (if a < i {
        s[a]
    } else {
        s[a + 1]
    }) by {}
    assert forall|a: int, b: int|
        0 <= a < t.len() && 0 <= b < t.len() && a != b implies #[trigger] t[a].0@ != #[trigger] t[b].0@ by {
        let sa = if a < i { a } else { a + 1 };
        let sb = if b < i { b } else { b + 1 };
        assert(t[a] == s[sa]);
        assert(t[b] == s[sb]);
    }
    assert forall|k: Seq<char>| #[trigger] has_key(t, k) == (has_key(s, k) && k != k0) by {
        if has_key(t, k) {
            let a = choose|a: int| 0 <= a < t.len() && #[trigger] t[a].0@ == k;
            let sa = if a < i { a } else { a + 1 };
            assert(t[a] == s[sa]);
        }
        if has_key(s, k) && k != k0 {
            let a = choose|a: int| 0 <= a < s.len() && #[trigger] s[a].0@ == k;
            if a < i {
                assert(t[a] == s[a]);
            } else {
                assert(t[a - 1] == s[a]);
            }
        }
    }
    assert forall|k: Seq<char>| #[trigger] key_map(t).contains_key(k) implies key_map(t)[k] == key_map(
        s,
    ).remove(k0)[k] by {
        let a = key_index(t, k);
        lemma_key_map_at(t, a);
        let sa = if a < i { a } else { a + 1 };
        assert(t[a] == s[sa]);
        lemma_key_map_at(s, sa);
    }
    assert(key_map(t) =~= key_map(s).remove(k0));
}

/// A map from strings to `V` whose entries keep the order in which their keys
/// first arrived.
pub struct AssocMap<V> {
    entries: Vec<(String, V)>,
}

impl<V> View for AssocMap<V> {
    type V = Map<Seq<char>, V>;

    open spec fn view(&self) -> Map<Seq<char>, V> {
        key_map(self.entry_seq())
    }
}

impl<V> AssocMap<V> {
    #[verifier::type_invariant]
    spec fn keys_are_distinct(self) -> bool {
        distinct_keys(self.entries@)
    }

    /// The entries, in order.
    pub closed spec fn entry_seq(self) -> Seq<(String, V)> {
        self.entries@
    }

    /// The keys, in order.
    pub open spec fn keys(self) -> Seq<Seq<char>> {
        key_seq(self.entry_seq())
    }

    /// An empty map.
    pub fn new() -> (r: Self)
        ensures
            r@ == Map::<Seq<char>, V>::empty(),
            r.entry_seq() == Seq::<(String, V)>::empty(),
    {
        let r = AssocMap { entries: Vec::new() };
        assert(key_map(r.entries@) =~= Map::<Seq<char>, V>::empty());
        r
    }

    /// A map holding the given entries, whose keys are distinct.
    pub fn from_distinct(entries: Vec<(String, V)>) -> (r: Self)
        requires
            distinct_keys(entries@),
        ensures
            r.entry_seq() == entries@,
    {
        AssocMap { entries }
    }

    /// The number of entries.
    pub fn len(&self) -> (r: usize)
        ensures
            r == self.entry_seq().len(),
    {
        self.entries.len()
    }

    /// The entries, in order; their keys are distinct.
    pub fn entries(&self) -> (r: &Vec<(String, V)>)
        ensures
            r@ == self.entry_seq(),
            distinct_keys(r@),
    {
        proof {
            use_type_invariant(self);
        }
        &self.entries
    }

    /// The entries, in order, taking the map apart.
    pub fn into_entries(self) -> (r: Vec<(String, V)>)
        ensures
            r@ == self.entry_seq(),
            distinct_keys(r@),
    {
        proof {
            use_type_invariant(&self);
        }
        self.entries
    }

    /// The position of `key` among the entries, if it is there.
    fn find(&self, key: &str) -> (r: Option<usize>)
        ensures
            match r {
                Some(i) => i < self.entry_seq().len() && self.entry_seq()[i as int].0@ == key@,
                None => !has_key(self.entry_seq(), key@),
            },
    {
        let mut i: usize = 0;
        while i < self.entries.len()
            invariant
                i <= self.entries@.len(),
                forall|j: int| 0 <= j < i ==> #[trigger] self.entries@[j].0@ != key@,
            decreases self.entries@.len() - i,
        {
            if str_equal(self.entries[i].0.as_str(), key) {
                return Some(i);
            }
            i = i + 1;
        }
        None
    }

    /// The value stored under `key`, if any.
    pub fn get(&self, key: &str) -> (r: Option<&V>)
        ensures
            match r {
                Some(v) => self@.contains_key(key@) && *v == self@[key@],
                None => !self@.contains_key(key@),
            },
    {
        proof {
            use_type_invariant(self);
        }
        match self.find(key) {
            Some(i) => {
                proof {
                    lemma_key_map_at(self.entries@, i as int);
                }
                Some(&self.entries[i].1)
            },
            None => None,
        }
    }

    /// Whether `key` has a value.
    pub fn contains_key(&self, key: &str) -> (r: bool)
        ensures
            r == self@.contains_key(key@),
    {
        self.find(key).is_some()
    }

    /// Stores `value` under `key`, replacing what was there. A new key goes
    /// after the existing ones; an existing key keeps its place.
    pub fn insert(&mut self, key: String, value: V)
        ensures
            final(self)@ == old(self)@.insert(key@, value),
            final(self).keys() == (if old(self)@.contains_key(key@) {
                old(self).keys()
            } else {
                old(self).keys().push(key@)
            }),
    {
        proof {
            use_type_invariant(&*self);
        }
        let ghost k = key@;
        let ghost v = value;
        match self.find(key.as_str()) {
            Some(i) => {
                proof {
                    lemma_key_map_update(self.entries@, i as int, (key, value));
                    lemma_key_map_at(self.entries@, i as int);
                }
                let mut entries = Vec::new();
                std::mem::swap(&mut entries, &mut self.entries);
                entries.set(i, (key, value));
                self.entries = entries;
            },
            None => {
                proof {
                    lemma_key_map_push(self.entries@, (key, value));
                    assert(key_seq(self.entries@.push((key, value))) =~= key_seq(self.entries@).push(
                        key@,
                    ));
                }
                let mut entries = Vec::new();
                std::mem::swap(&mut entries, &mut self.entries);
                entries.push((key, value));
                self.entries = entries;
            },
        }
    }

    /// Takes out the value stored under `key`, if any.
    pub fn remove(&mut self, key: &str) -> (r: Option<V>)
        ensures
            final(self)@ == old(self)@.remove(key@),
            match r {
                Some(v) => old(self)@.contains_key(key@) && v == old(self)@[key@],
                None => !old(self)@.contains_key(key@),
            },
    {
        proof {
            use_type_invariant(&*self);
        }
        match self.find(key) {
            Some(i) => {
                proof {
                    lemma_key_map_remove(self.entries@, i as int);
                    lemma_key_map_at(self.entries@, i as int);
                }
                let mut entries = Vec::new();
                std::mem::swap(&mut entries, &mut self.entries);
                let e = entries.remove(i);
                self.entries = entries;
                Some(e.1)
            },
            None => {
                assert(key_map(self.entries@).remove(key@) =~= key_map(self.entries@));
                None
            },
        }
    }

    /// Stores every entry of `other`, its values replacing those already
    /// stored under the same keys.
    pub fn extend(&mut self, other: AssocMap<V>)
        ensures
            final(self)@ == old(self)@.union_prefer_right(other@),
    {
        let ghost start = self@;
        let ghost om = other@;
        let items = other.into_entries();
        let ghost items_seq = items@;
        for e in it: items
            invariant
                it.seq() == items_seq,
                distinct_keys(items_seq),
                om == key_map(items_seq),
                self@ == start.union_prefer_right(key_map(items_seq.take(it.index()))),
        {
            proof {
                let i = it.index();
                assert(e == items_seq[i]);
                let pre = items_seq.take(i);
                let post = items_seq.take(i + 1);
                assert(post =~= pre.push(e));
                assert(distinct_keys(pre));
                assert(!has_key(pre, e.0@)) by {
                    if has_key(pre, e.0@) {
                        let j = choose|j: int| 0 <= j < pre.len() && #[trigger] pre[j].0@ == e.0@;
                        assert(items_seq[j] == pre[j]);
                    }
                }
                lemma_key_map_push(pre, e);
            }
            self.insert(e.0, e.1);
            proof {
                assert(self@ =~= start.union_prefer_right(key_map(items_seq.take(it.index() + 1))));
            }
        }
        assert(items_seq.take(items_seq.len() as int) =~= items_seq);
    }
}

impl<T> AssocMap<Vec<T>> {
    /// Appends `item` to the list stored under `key`, starting a one-item list
    /// for a new key.
    pub fn push_to(&mut self, key: String, item: T)
        ensures
            final(self)@.dom() == old(self)@.dom().insert(key@),
            final(self)@[key@]@ == (if old(self)@.contains_key(key@) {
                old(self)@[key@]@
            } else {
                Seq::<T>::empty()
            }).push(item),
            forall|k: Seq<char>| k != key@ ==> #[trigger] final(self)@.contains_key(k) ==> final(self)@[k] == old(self)@[k],
            final(self).keys() == (if old(self)@.contains_key(key@) {
                old(self).keys()
            } else {
                old(self).keys().push(key@)
            }),
    {
        proof {
            use_type_invariant(&*self);
        }
        match self.find(key.as_str()) {
            Some(i) => {
                let ghost before = self.entries@;
                let mut entries = Vec::new();
                std::mem::swap(&mut entries, &mut self.entries);
                let (k, mut list) = entries.remove(i);
                list.push(item);
                entries.insert(i, (k, list));
                proof {
                    assert(entries@ =~= before.update(i as int, (k, list)));
                    lemma_key_map_update(before, i as int, (k, list));
                }
                self.entries = entries;
                proof {
                    lemma_key_map_update(before, i as int, (k, list));
                    lemma_key_map_at(before, i as int);
                }
            },
            None => {
                let mut list = Vec::new();
                list.push(item);
                proof {
                    lemma_key_map_push(self.entries@, (key, list));
                    assert(key_seq(self.entries@.push((key, list))) =~= key_seq(self.entries@).push(
                        key@,
                    ));
                }
                let mut entries = Vec::new();
                std::mem::swap(&mut entries, &mut self.entries);
                entries.push((key, list));
                self.entries = entries;
            },
        }
    }
}

} // verus!
