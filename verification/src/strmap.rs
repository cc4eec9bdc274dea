use vstd::prelude::*;

use crate::text::{lemma_seq_lt_asymmetric, lemma_seq_lt_irreflexive, lemma_seq_lt_total, lemma_seq_lt_transitive, seq_lt, str_lt};

verus! {

/// The keys of a list of entries, as character sequences.
pub open spec fn keys_of<V>(s: Seq<(String, V)>) -> Seq<Seq<char>> {
    Seq::new(s.len(), |i: int| s[i].0@)
}

/// Keys in strictly increasing order (and so each key at most once).
pub open spec fn strictly_sorted(k: Seq<Seq<char>>) -> bool {
    forall|i: int, j: int| 0 <= i < j < k.len() ==> seq_lt(#[trigger] k[i], #[trigger] k[j])
}

/// No key occurs twice.
pub open spec fn distinct_keys(k: Seq<Seq<char>>) -> bool {
    forall|i: int, j: int| 0 <= i < k.len() && 0 <= j < k.len() && i != j ==> #[trigger] k[i] != #[trigger] k[j]
}

/// The map that a list of entries denotes; a later entry wins over an earlier one.
pub open spec fn pairs_map<V>(s: Seq<(String, V)>) -> Map<Seq<char>, V>
    decreases s.len(),
{
    if s.len() == 0 {
        Map::empty()
    } else {
        pairs_map(s.drop_last()).insert(s.last().0@, s.last().1)
    }
}

pub proof fn lemma_sorted_distinct(k: Seq<Seq<char>>)
    requires
        strictly_sorted(k),
    ensures
        distinct_keys(k),
{
    assert forall|i: int, j: int| 0 <= i < k.len() && 0 <= j < k.len() && i != j implies #[trigger] k[i] != #[trigger] k[j] by {
        if i < j {
            lemma_seq_lt_irreflexive(k[i]);
        } else {
            lemma_seq_lt_irreflexive(k[j]);
        }
    }
}

/// A key is in the denoted map exactly when some entry carries it.
pub proof fn lemma_pairs_map_dom<V>(s: Seq<(String, V)>, k: Seq<char>)
    ensures
        pairs_map(s).contains_key(k) <==> exists|i: int| 0 <= i < s.len() && (#[trigger] s[i]).0@ == k,
    decreases s.len(),
{
    if s.len() > 0 {
        lemma_pairs_map_dom(s.drop_last(), k);
        if pairs_map(s.drop_last()).contains_key(k) {
            let i = choose|i: int| 0 <= i < s.drop_last().len() && (#[trigger] s.drop_last()[i]).0@ == k;
        }
        if exists|i: int| 0 <= i < s.len() && (#[trigger] s[i]).0@ == k {
            let i = choose|i: int| 0 <= i < s.len() && (#[trigger] s[i]).0@ == k;
            if i < s.len() - 1 {
                assert(s.drop_last()[i] == s[i]);
            }
        }
    }
}

/// With distinct keys, the denoted map sends each entry's key to its value.
pub proof fn lemma_pairs_map_index<V>(s: Seq<(String, V)>, i: int)
    requires
        distinct_keys(keys_of(s)),
        0 <= i < s.len(),
    ensures
        pairs_map(s).contains_key(s[i].0@),
        pairs_map(s)[s[i].0@] == s[i].1,
    decreases s.len(),
{
    if i < s.len() - 1 {
        let t = s.drop_last();
        assert(keys_of(t) =~= keys_of(s).drop_last());
        lemma_pairs_map_index(t, i);
        assert(keys_of(s)[i] != keys_of(s)[s.len() - 1]);
    }
}

/// Equality of denoted maps from a description of the keys and values.
proof fn lemma_pairs_map_ext<V>(s: Seq<(String, V)>, m: Map<Seq<char>, V>)
    requires
        distinct_keys(keys_of(s)),
        forall|k: Seq<char>| m.contains_key(k) <==> exists|i: int| 0 <= i < s.len() && (#[trigger] s[i]).0@ == k,
        forall|i: int| 0 <= i < s.len() ==> m[(#[trigger] s[i]).0@] == s[i].1,
    ensures
        pairs_map(s) == m,
{
    assert forall|k: Seq<char>| pairs_map(s).contains_key(k) <==> m.contains_key(k) by {
        lemma_pairs_map_dom(s, k);
    }
    assert forall|k: Seq<char>| #[trigger] pairs_map(s).contains_key(k) implies pairs_map(s)[k] == m[k] by {
        lemma_pairs_map_dom(s, k);
        let i = choose|i: int| 0 <= i < s.len() && (#[trigger] s[i]).0@ == k;
        lemma_pairs_map_index(s, i);
    }
}

/// A map from strings to values, kept as a list of entries in increasing key order.
pub struct StrMap<V> {
    entries: Vec<(String, V)>,
}

impl<V> View for StrMap<V> {
    type V = Map<Seq<char>, V>;

    open spec fn view(&self) -> Map<Seq<char>, V> {
        pairs_map(self.pairs())
    }
}

impl<V> StrMap<V> {
    /// The entries, in increasing key order.
    pub closed spec fn pairs(&self) -> Seq<(String, V)> {
        self.entries@
    }

    /// The keys, in increasing order.
    pub open spec fn key_seq(&self) -> Seq<Seq<char>> {
        keys_of(self.pairs())
    }

    /// The entries are in strictly increasing key order.
    pub open spec fn well_sorted(&self) -> bool {
        strictly_sorted(self.key_seq())
    }

    #[verifier::type_invariant]
    spec fn sorted_inv(&self) -> bool {
        strictly_sorted(keys_of(self.entries@))
    }

    /// The empty map.
    pub fn new() -> (m: Self)
        ensures
            m@ == Map::<Seq<char>, V>::empty(),
            m.pairs().len() == 0,
    {
        StrMap { entries: Vec::new() }
    }

    /// The number of entries.
    pub fn len(&self) -> (n: usize)
        ensures
            n == self.pairs().len(),
            self.well_sorted(),
            distinct_keys(self.key_seq()),
            self@.dom().finite(),
    {
        proof {
            use_type_invariant(self);
            lemma_sorted_distinct(self.key_seq());
            self.lemma_dom_finite();
        }
        self.entries.len()
    }

    proof fn lemma_dom_finite(&self)
        ensures
            self@.dom().finite(),
    {
        lemma_pairs_map_finite(self.pairs());
    }

    /// Whether the map has no entry.
    pub fn is_empty(&self) -> (b: bool)
        ensures
            b == (self.pairs().len() == 0),
            b == (self@.dom() == Set::<Seq<char>>::empty()),
    {
        proof {
            if self.pairs().len() > 0 {
                lemma_pairs_map_dom(self.pairs(), self.pairs()[0].0@);
            }
        }
        self.entries.len() == 0
    }

    /// The key of the `i`-th entry in key order.
    pub fn key_at(&self, i: usize) -> (k: &String)
        requires
            i < self.pairs().len(),
        ensures
            *k == self.pairs()[i as int].0,
            k@ == self.key_seq()[i as int],
    {
        &self.entries[i].0
    }

    /// The value of the `i`-th entry in key order.
    pub fn value_at(&self, i: usize) -> (v: &V)
        requires
            i < self.pairs().len(),
        ensures
            *v == self.pairs()[i as int].1,
    {
        &self.entries[i].1
    }

    /// The entry of the given index is in the map.
    pub proof fn lemma_view_at(&self, i: int)
        requires
            self.well_sorted(),
            0 <= i < self.pairs().len(),
        ensures
            self@.contains_key(self.key_seq()[i]),
            self@[self.key_seq()[i]] == self.pairs()[i].1,
    {
        lemma_sorted_distinct(self.key_seq());
        lemma_pairs_map_index(self.pairs(), i);
    }

    /// A key is in the map exactly when it is the key of some entry.
    pub proof fn lemma_view_dom(&self, k: Seq<char>)
        ensures
            self@.contains_key(k) <==> self.key_seq().contains(k),
    {
        lemma_pairs_map_dom(self.pairs(), k);
        if self.key_seq().contains(k) {
            let i = choose|i: int| 0 <= i < self.key_seq().len() && self.key_seq()[i] == k;
        }
        if self@.contains_key(k) {
            let i = choose|i: int| 0 <= i < self.pairs().len() && (#[trigger] self.pairs()[i]).0@ == k;
            assert(self.key_seq()[i] == k);
        }
    }

    /// The position of the first entry whose key is not below `key`.
    fn lower_bound(&self, key: &str) -> (i: usize)
        ensures
            i <= self.pairs().len(),
            forall|j: int| 0 <= j < i ==> seq_lt(#[trigger] self.key_seq()[j], key@),
            i < self.pairs().len() ==> !seq_lt(self.key_seq()[i as int], key@),
    {
        let n = self.entries.len();
        let mut i: usize = 0;
        while i < n
            invariant
                n == self.pairs().len(),
                i <= n,
                forall|j: int| 0 <= j < i ==> seq_lt(#[trigger] self.key_seq()[j], key@),
            decreases n - i,
        {
            if !str_lt(self.entries[i].0.as_str(), key) {
                return i;
            }
            i = i + 1;
        }
        i
    }

    /// Where `key` is, if it is in the map.
    fn find(&self, key: &str) -> (r: Option<usize>)
        ensures
            match r {
                Some(i) => i < self.pairs().len() && self.key_seq()[i as int] == key@,
                None => !self.key_seq().contains(key@),
            },
    {
        proof {
            use_type_invariant(self);
        }
        let i = self.lower_bound(key);
        if i < self.entries.len() && !str_lt(key, self.entries[i].0.as_str()) {
            proof {
                let k = self.key_seq()[i as int];
                if k != key@ {
                    lemma_seq_lt_total(k, key@);
                }
            }
            Some(i)
        } else {
            proof {
                if self.key_seq().contains(key@) {
                    let j = choose|j: int| 0 <= j < self.key_seq().len() && self.key_seq()[j] == key@;
                    lemma_seq_lt_irreflexive(key@);
                }
            }
            None
        }
    }

    /// Whether `key` is in the map.
    pub fn contains_key(&self, key: &str) -> (b: bool)
        ensures
            b == self@.contains_key(key@),
    {
        proof {
            self.lemma_view_dom(key@);
        }
        self.find(key).is_some()
    }

    /// The value that `key` maps to, if any.
    pub fn get(&self, key: &str) -> (r: Option<&V>)
        ensures
            match r {
                Some(v) => self@.contains_key(key@) && *v == self@[key@],
                None => !self@.contains_key(key@),
            },
    {
        proof {
            use_type_invariant(self);
            self.lemma_view_dom(key@);
        }
        match self.find(key) {
            Some(i) => {
                proof {
                    self.lemma_view_at(i as int);
                }
                Some(&self.entries[i].1)
            },
            None => None,
        }
    }

    /// The keys in increasing order.
    pub fn keys(&self) -> (ks: Vec<String>)
        ensures
            ks@.len() == self.pairs().len(),
            forall|i: int| 0 <= i < ks@.len() ==> (#[trigger] ks@[i])@ == self.key_seq()[i],
    {
        let n = self.entries.len();
        let mut ks: Vec<String> = Vec::new();
        let mut i: usize = 0;
        while i < n
            invariant
                n == self.pairs().len(),
                i <= n,
                ks@.len() == i,
                forall|j: int| 0 <= j < i ==> (#[trigger] ks@[j])@ == self.key_seq()[j],
            decreases n - i,
        {
            ks.push(self.entries[i].0.clone());
            i = i + 1;
        }
        ks
    }

    /// Puts `value` under `key`, and hands back the value it replaced, if any.
    pub fn insert(&mut self, key: String, value: V) -> (replaced: Option<V>)
        ensures
            final(self)@ == old(self)@.insert(key@, value),
            replaced == (if old(self)@.contains_key(key@) {
                Some(old(self)@[key@])
            } else {
                None::<V>
            }),
    {
        proof {
            use_type_invariant(&*self);
            lemma_sorted_distinct(self.key_seq());
        }
        let ghost s = self.pairs();
        let i = self.lower_bound(key.as_str());
        let found = i < self.entries.len() && !str_lt(key.as_str(), self.entries[i].0.as_str());
        let mut entries: Vec<(String, V)> = Vec::new();
        std::mem::swap(&mut entries, &mut self.entries);
        if found {
            proof {
                let k = s[i as int].0@;
                if k != key@ {
                    lemma_seq_lt_total(k, key@);
                }
            }
            let old_entry = entries.remove(i);
            entries.insert(i, (key, value));
            let ghost t = entries@;
            proof {
                assert(t =~= s.update(i as int, t[i as int]));
                lemma_insert_replace(s, i as int, t);
                lemma_pairs_map_index(s, i as int);
            }
            self.entries = entries;
            Some(old_entry.1)
        } else {
            let ghost k = key@;
            entries.insert(i, (key, value));
            let ghost t = entries@;
            proof {
                lemma_insert_new(s, i as int, t);
                lemma_pairs_map_dom(s, k);
                if pairs_map(s).contains_key(k) {
                    let j = choose|j: int| 0 <= j < s.len() && (#[trigger] s[j]).0@ == k;
                    lemma_seq_lt_irreflexive(k);
                    if j >= i {
                        if j > i {
                            assert(seq_lt(keys_of(s)[i as int], keys_of(s)[j]));
                            lemma_seq_lt_asymmetric(keys_of(s)[i as int], k);
                        }
                    } else {
                        assert(keys_of(s)[j] == s[j].0@);
                    }
                }
            }
            self.entries = entries;
            None
        }
    }

    /// Removes `key`, and hands back the value it had, if any.
    pub fn remove(&mut self, key: &str) -> (removed: Option<V>)
        ensures
            final(self)@ == old(self)@.remove(key@),
            removed == (if old(self)@.contains_key(key@) {
                Some(old(self)@[key@])
            } else {
                None::<V>
            }),
    {
        proof {
            use_type_invariant(&*self);
            lemma_sorted_distinct(self.key_seq());
            self.lemma_view_dom(key@);
        }
        let ghost s = self.pairs();
        match self.find(key) {
            Some(i) => {
                let mut entries: Vec<(String, V)> = Vec::new();
                std::mem::swap(&mut entries, &mut self.entries);
                let old_entry = entries.remove(i);
                proof {
                    lemma_pairs_map_index(s, i as int);
                    lemma_remove_entry(s, i as int, entries@);
                }
                self.entries = entries;
                Some(old_entry.1)
            },
            None => {
                None
            },
        }
    }
}

proof fn lemma_pairs_map_finite<V>(s: Seq<(String, V)>)
    ensures
        pairs_map(s).dom().finite(),
    decreases s.len(),
{
    if s.len() > 0 {
        lemma_pairs_map_finite(s.drop_last());
    }
}

/// Replacing the value of an entry in a sorted list.
proof fn lemma_insert_replace<V>(s: Seq<(String, V)>, i: int, t: Seq<(String, V)>)
    requires
        strictly_sorted(keys_of(s)),
        0 <= i < s.len(),
        t == s.update(i, t[i]),
        t[i].0@ == s[i].0@,
    ensures
        strictly_sorted(keys_of(t)),
        pairs_map(t) == pairs_map(s).insert(t[i].0@, t[i].1),
{
    assert(keys_of(t) =~= keys_of(s));
    lemma_sorted_distinct(keys_of(s));
    let m = pairs_map(s).insert(t[i].0@, t[i].1);
    assert forall|k: Seq<char>| m.contains_key(k) <==> exists|j: int| 0 <= j < t.len() && (#[trigger] t[j]).0@ == k by {
        lemma_pairs_map_dom(s, k);
        if exists|j: int| 0 <= j < s.len() && (#[trigger] s[j]).0@ == k {
            let j = choose|j: int| 0 <= j < s.len() && (#[trigger] s[j]).0@ == k;
            assert(keys_of(t)[j] == keys_of(s)[j]);
        }
        if exists|j: int| 0 <= j < t.len() && (#[trigger] t[j]).0@ == k {
            let j = choose|j: int| 0 <= j < t.len() && (#[trigger] t[j]).0@ == k;
        }
    }
    assert forall|j: int| 0 <= j < t.len() implies m[(#[trigger] t[j]).0@] == t[j].1 by {
        if j != i {
            assert(keys_of(s)[j] != keys_of(s)[i]);
            lemma_pairs_map_index(s, j);
        }
    }
    lemma_pairs_map_ext(t, m);
}

/// Inserting a new entry at its place in a sorted list.
proof fn lemma_insert_new<V>(s: Seq<(String, V)>, i: int, t: Seq<(String, V)>)
    requires
        strictly_sorted(keys_of(s)),
        0 <= i <= s.len(),
        t == s.insert(i, t[i]),
        forall|j: int| 0 <= j < i ==> seq_lt(#[trigger] keys_of(s)[j], t[i].0@),
        i < s.len() ==> seq_lt(t[i].0@, keys_of(s)[i]),
    ensures
        strictly_sorted(keys_of(t)),
        pairs_map(t) == pairs_map(s).insert(t[i].0@, t[i].1),
{
    let k = t[i].0@;
    let ks = keys_of(s);
    let kt = keys_of(t);
    assert forall|a: int, b: int| 0 <= a < b < kt.len() implies seq_lt(#[trigger] kt[a], #[trigger] kt[b]) by {
        if b < i {
            assert(kt[a] == ks[a] && kt[b] == ks[b]);
        } else if b == i {
            assert(kt[a] == ks[a]);
        } else if a == i {
            if b - 1 > i {
                lemma_seq_lt_transitive(k, ks[i], ks[b - 1]);
            }
        } else if a < i {
            assert(kt[a] == ks[a] && kt[b] == ks[b - 1]);
        } else {
            assert(kt[a] == ks[a - 1] && kt[b] == ks[b - 1]);
        }
    }
    lemma_sorted_distinct(kt);
    lemma_sorted_distinct(ks);
    let m = pairs_map(s).insert(k, t[i].1);
    assert forall|x: Seq<char>| m.contains_key(x) <==> exists|j: int| 0 <= j < t.len() && (#[trigger] t[j]).0@ == x by {
        lemma_pairs_map_dom(s, x);
        if exists|j: int| 0 <= j < s.len() && (#[trigger] s[j]).0@ == x {
            let j = choose|j: int| 0 <= j < s.len() && (#[trigger] s[j]).0@ == x;
            if j < i {
                assert(t[j] == s[j]);
            } else {
                assert(t[j + 1] == s[j]);
            }
        }
        if exists|j: int| 0 <= j < t.len() && (#[trigger] t[j]).0@ == x {
            let j = choose|j: int| 0 <= j < t.len() && (#[trigger] t[j]).0@ == x;
        }
    }
    assert forall|j: int| 0 <= j < t.len() implies m[(#[trigger] t[j]).0@] == t[j].1 by {
        if j < i {
            assert(kt[j] != kt[i]);
            lemma_pairs_map_index(s, j);
        } else if j > i {
            assert(kt[j] != kt[i]);
            lemma_pairs_map_index(s, j - 1);
        }
    }
    lemma_pairs_map_ext(t, m);
}

/// Removing an entry from a sorted list.
proof fn lemma_remove_entry<V>(s: Seq<(String, V)>, i: int, t: Seq<(String, V)>)
    requires
        strictly_sorted(keys_of(s)),
        0 <= i < s.len(),
        t == s.remove(i),
    ensures
        strictly_sorted(keys_of(t)),
        pairs_map(t) == pairs_map(s).remove(s[i].0@),
{
    let ks = keys_of(s);
    let kt = keys_of(t);
    assert forall|a: int, b: int| 0 <= a < b < kt.len() implies seq_lt(#[trigger] kt[a], #[trigger] kt[b]) by {
        if b < i {
            assert(kt[a] == ks[a] && kt[b] == ks[b]);
        } else if a < i {
            assert(kt[a] == ks[a] && kt[b] == ks[b + 1]);
        } else {
            assert(kt[a] == ks[a + 1] && kt[b] == ks[b + 1]);
        }
    }
    lemma_sorted_distinct(kt);
    lemma_sorted_distinct(ks);
    let k = s[i].0@;
    let m = pairs_map(s).remove(k);
    assert forall|x: Seq<char>| m.contains_key(x) <==> exists|j: int| 0 <= j < t.len() && (#[trigger] t[j]).0@ == x by {
        lemma_pairs_map_dom(s, x);
        if exists|j: int| 0 <= j < s.len() && (#[trigger] s[j]).0@ == x && x != k {
            let j = choose|j: int| 0 <= j < s.len() && (#[trigger] s[j]).0@ == x && x != k;
            if j < i {
                assert(t[j] == s[j]);
            } else {
                assert(t[j - 1] == s[j]);
            }
        }
        if exists|j: int| 0 <= j < t.len() && (#[trigger] t[j]).0@ == x {
            let j = choose|j: int| 0 <= j < t.len() && (#[trigger] t[j]).0@ == x;
            if j < i {
                assert(ks[j] != ks[i]);
            } else {
                assert(ks[j + 1] != ks[i]);
            }
        }
    }
    assert forall|j: int| 0 <= j < t.len() implies m[(#[trigger] t[j]).0@] == t[j].1 by {
        if j < i {
            assert(ks[j] != ks[i]);
            lemma_pairs_map_index(s, j);
        } else {
            assert(ks[j + 1] != ks[i]);
            lemma_pairs_map_index(s, j + 1);
        }
    }
    lemma_pairs_map_ext(t, m);
}

/// What a lookup gives back after an insertion: the inserted value under its
/// key, and what was there before under every other key.
pub proof fn lemma_get_after_insert<V>(m: Map<Seq<char>, V>, k: Seq<char>, v: V, other: Seq<char>)
    requires
        other != k,
    ensures
        m.insert(k, v).contains_key(k),
        m.insert(k, v)[k] == v,
        m.insert(k, v).contains_key(other) == m.contains_key(other),
        m.contains_key(other) ==> m.insert(k, v)[other] == m[other],
{
}

/// What a lookup gives back after a removal: nothing under the removed key, and
/// what was there before under every other key.
pub proof fn lemma_get_after_remove<V>(m: Map<Seq<char>, V>, k: Seq<char>, other: Seq<char>)
    requires
        other != k,
    ensures
        !m.remove(k).contains_key(k),
        m.remove(k).contains_key(other) == m.contains_key(other),
        m.contains_key(other) ==> m.remove(k)[other] == m[other],
{
}

} // verus!
