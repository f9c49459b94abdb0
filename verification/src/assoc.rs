//! A small string-keyed table that keeps its entries in insertion order.
//!
//! It plays the part of the hash maps keyed by names: each key occurs at most
//! once, a later insertion under the same key replaces the value in place, and
//! the entries can be visited in a fixed order.
use vstd::prelude::*;

verus! {

/// The keys of an entry sequence, by their character view.
pub open spec fn entry_keys<V>(s: Seq<(String, V)>) -> Seq<Seq<char>> {
    s.map_values(|e: (String, V)| e.0@)
}

/// No key occurs twice.
pub open spec fn keys_distinct<V>(s: Seq<(String, V)>) -> bool {
    forall|i: int, j: int| 0 <= i < s.len() && 0 <= j < s.len() && i != j ==> s[i].0@ != s[j].0@
}

/// Some entry has key `k`.
pub open spec fn has_key<V>(s: Seq<(String, V)>, k: Seq<char>) -> bool {
    exists|i: int| 0 <= i < s.len() && s[i].0@ == k
}

/// The position of key `k` (meaningful when `has_key(s, k)`).
pub open spec fn key_index<V>(s: Seq<(String, V)>, k: Seq<char>) -> int {
    choose|i: int| 0 <= i < s.len() && s[i].0@ == k
}

/// The views of a list of string pairs.
pub open spec fn pair_views(s: Seq<(String, String)>) -> Seq<(Seq<char>, Seq<char>)> {
    s.map_values(|p: (String, String)| (p.0@, p.1@))
}

/// The map of a list of pairs; a later pair overrides an earlier one.
pub open spec fn pairs_map(s: Seq<(Seq<char>, Seq<char>)>) -> Map<Seq<char>, Seq<char>>
    decreases s.len(),
{
    if s.len() == 0 {
        Map::empty()
    } else {
        pairs_map(s.drop_last()).insert(s.last().0, s.last().1)
    }
}

/// A string-keyed table with distinct keys, in insertion order.
#[derive(Debug)]
pub struct StrTable<V> {
    entries: Vec<(String, V)>,
}

impl<V> StrTable<V> {
    #[verifier::type_invariant]
    spec fn inv(self) -> bool {
        keys_distinct(self.entries@)
    }

    /// The entries, in order.
    pub closed spec fn entries(self) -> Seq<(String, V)> {
        self.entries@
    }

    /// Whether `k` is a key.
    pub open spec fn contains(self, k: Seq<char>) -> bool {
        has_key(self.entries(), k)
    }

    /// The value stored under `k` (meaningful when `self.contains(k)`).
    pub open spec fn value_at(self, k: Seq<char>) -> V {
        self.entries()[key_index(self.entries(), k)].1
    }

    /// The keys, in order.
    pub open spec fn key_seq(self) -> Seq<Seq<char>> {
        entry_keys(self.entries())
    }

    /// An empty table.
    pub fn new() -> (t: Self)
        ensures
            t.entries() == Seq::<(String, V)>::empty(),
    {
        StrTable { entries: Vec::new() }
    }

    /// Number of entries (and, for the caller's use, that no key occurs twice).
    pub fn len(&self) -> (n: usize)
        ensures
            n == self.entries().len(),
            keys_distinct(self.entries()),
    {
        proof {
            use_type_invariant(self);
        }
        self.entries.len()
    }

    /// The entry at position `i`.
    pub fn entry(&self, i: usize) -> (e: &(String, V))
        requires
            i < self.entries().len(),
        ensures
            *e == self.entries()[i as int],
    {
        &self.entries[i]
    }

    /// The position of key `k`, if present.
    pub fn find(&self, k: &str) -> (r: Option<usize>)
        ensures
            r.is_none() <==> !self.contains(k@),
            r matches Some(i) ==> i < self.entries().len() && self.entries()[i as int].0@ == k@
                && i == key_index(self.entries(), k@),
    {
        proof {
            use_type_invariant(self);
        }
        let mut i: usize = 0;
        while i < self.entries.len()
            invariant
                keys_distinct(self.entries@),
                i <= self.entries@.len(),
                forall|j: int| 0 <= j < i ==> self.entries@[j].0@ != k@,
            decreases self.entries@.len() - i,
        {
            if crate::text::str_eq(self.entries[i].0.as_str(), k) {
                proof {
                    let ki = key_index(self.entries@, k@);
                    assert(has_key(self.entries@, k@));
                    assert(ki == i as int);
                }
                return Some(i);
            }
            i += 1;
        }
        None
    }

    /// The value stored under `k`, if any.
    pub fn get(&self, k: &str) -> (r: Option<&V>)
        ensures
            r.is_none() <==> !self.contains(k@),
            r matches Some(v) ==> *v == self.value_at(k@),
    {
        match self.find(k) {
            Some(i) => Some(&self.entries[i].1),
            None => None,
        }
    }

    /// Whether `k` is a key.
    pub fn contains_key(&self, k: &str) -> (r: bool)
        ensures
            r == self.contains(k@),
    {
        self.find(k).is_some()
    }
}

impl<V: View> StrTable<V> {
    /// The table as a map from key views to value views.
    pub open spec fn view_map(self) -> Map<Seq<char>, V::V> {
        Map::new(|k: Seq<char>| self.contains(k), |k: Seq<char>| self.value_at(k)@)
    }

    /// A table of the pairs of a list; a later pair overrides an earlier one.
    pub fn from_pairs(pairs: &Vec<(String, String)>) -> (t: StrTable<String>)
        ensures
            t.view_map() == pairs_map(pair_views(pairs@)),
    {
        let mut t: StrTable<String> = StrTable::new();
        assert(t.view_map() =~= Map::<Seq<char>, Seq<char>>::empty());
        let ghost pv = pair_views(pairs@);
        let mut i: usize = 0;
        while i < pairs.len()
            invariant
                i <= pairs.len(),
                pv == pair_views(pairs@),
                t.view_map() == pairs_map(pv.take(i as int)),
            decreases pairs.len() - i,
        {
            t.insert(pairs[i].0.clone(), pairs[i].1.clone());
            assert(pv.take(i + 1).drop_last() =~= pv.take(i as int));
            i += 1;
        }
        assert(pv.take(pairs@.len() as int) =~= pv);
        t
    }

    /// Stores `v` under `k`: a present key keeps its position and gets the new
    /// value; a new key is appended.
    pub fn insert(&mut self, k: String, v: V)
        ensures
            old(self).contains(k@) ==> final(self).entries() == old(self).entries().update(
                key_index(old(self).entries(), k@),
                (k, v),
            ),
            !old(self).contains(k@) ==> final(self).entries() == old(self).entries().push((k, v)),
            final(self).view_map() == old(self).view_map().insert(k@, v@),
            final(self).key_seq() == if old(self).contains(k@) {
                old(self).key_seq()
            } else {
                old(self).key_seq().push(k@)
            },
    {
        proof {
            use_type_invariant(&*self);
        }
        let found = self.find(k.as_str());
        let mut entries: Vec<(String, V)> = Vec::new();
        std::mem::swap(&mut entries, &mut self.entries);
        let ghost old_entries = entries@;
        let ghost mut wi: int = old_entries.len() as int;
        match found {
            Some(i) => {
                proof {
                    wi = i as int;
                }
                entries.set(i, (k, v));
                assert(keys_distinct(entries@)) by {
                    assert forall|a: int, b: int|
                        0 <= a < entries@.len() && 0 <= b < entries@.len() && a != b
                        implies entries@[a].0@ != entries@[b].0@ by {
                        if a != i && b != i {
                            assert(old_entries[a].0@ != old_entries[b].0@);
                        } else if a == i {
                            assert(old_entries[b].0@ != old_entries[a].0@);
                        } else {
                            assert(old_entries[a].0@ != old_entries[b].0@);
                        }
                    }
                }
            },
            None => {
                entries.push((k, v));
            },
        }
        self.entries = entries;
        proof {
            let ghost nv = self.view_map();
            let ghost ov = old(self).view_map().insert(k@, v@);
            assert forall|q: Seq<char>| #[trigger] nv.contains_key(q) == ov.contains_key(q) by {
                if q == k@ {
                    assert(self.entries@[wi].0@ == k@);
                    assert(has_key(self.entries@, k@));
                } else if has_key(old_entries, q) {
                    let j = key_index(old_entries, q);
                    assert(self.entries@[j].0@ == q);
                }
                if has_key(self.entries@, q) && q != k@ {
                    let j = key_index(self.entries@, q);
                    assert(old_entries[j].0@ == q);
                }
            }
            assert forall|q: Seq<char>| nv.contains_key(q) implies #[trigger] nv[q] == ov[q] by {
                let j = key_index(self.entries@, q);
                if q == k@ {
                    assert(self.entries@[j].1@ == v@);
                } else {
                    let oj = key_index(old_entries, q);
                    assert(old_entries[j].0@ == q);
                    assert(self.entries@[oj].0@ == q);
                }
            }
            assert(nv =~= ov);
            if has_key(old_entries, k@) {
                assert(old_entries[wi].0@ == k@);
                assert(entry_keys(self.entries@) =~= entry_keys(old_entries));
            } else {
                assert(entry_keys(self.entries@) =~= entry_keys(old_entries).push(k@));
            }
        }
    }
}

/// A key is among the keys exactly when some entry has it.
pub proof fn lemma_key_seq_contains<V>(s: Seq<(String, V)>, k: Seq<char>)
    ensures
        entry_keys(s).contains(k) == has_key(s, k),
{
    if has_key(s, k) {
        let i = choose|i: int| 0 <= i < s.len() && s[i].0@ == k;
        assert(entry_keys(s)[i] == k);
    }
    if entry_keys(s).contains(k) {
        let i = choose|i: int| 0 <= i < entry_keys(s).len() && entry_keys(s)[i] == k;
        assert(s[i].0@ == k);
    }
}

/// With distinct keys, the map of the pairs is the table's map.
pub proof fn lemma_pairs_map_distinct(s: Seq<(String, String)>)
    requires
        keys_distinct(s),
    ensures
        pairs_map(pair_views(s)) == Map::new(
            |k: Seq<char>| has_key(s, k),
            |k: Seq<char>| s[key_index(s, k)].1@,
        ),
    decreases s.len(),
{
    let m = Map::new(|k: Seq<char>| has_key(s, k), |k: Seq<char>| s[key_index(s, k)].1@);
    if s.len() == 0 {
        assert(pairs_map(pair_views(s)) =~= m);
    } else {
        let t = s.drop_last();
        lemma_pairs_map_distinct(t);
        assert(pair_views(s).drop_last() =~= pair_views(t));
        let mt = Map::new(|k: Seq<char>| has_key(t, k), |k: Seq<char>| t[key_index(t, k)].1@);
        let last = s.last();
        let r = mt.insert(last.0@, last.1@);
        assert forall|k: Seq<char>| #[trigger] r.contains_key(k) == m.contains_key(k) by {
            if has_key(t, k) {
                let i = key_index(t, k);
                assert(s[i].0@ == k);
            }
            if k == last.0@ {
                assert(s[s.len() - 1].0@ == k);
            }
            if has_key(s, k) && k != last.0@ {
                let i = key_index(s, k);
                assert(i != s.len() - 1);
                assert(t[i].0@ == k);
            }
        }
        assert forall|k: Seq<char>| r.contains_key(k) implies #[trigger] r[k] == m[k] by {
            let i = key_index(s, k);
            assert(0 <= i < s.len() && s[i].0@ == k);
            if k == last.0@ {
                assert(s[s.len() - 1].0@ == k);
                assert(i == s.len() - 1);
            } else {
                let j = key_index(t, k);
                assert(t[j].0@ == k);
                assert(s[j].0@ == k);
                assert(i == j);
            }
        }
        assert(r =~= m);
    }
}

impl StrTable<String> {
    /// The entries as a list of pairs, in order; their map is the table's.
    pub fn to_pairs(&self) -> (r: Vec<(String, String)>)
        ensures
            r@ == self.entries(),
            pairs_map(pair_views(r@)) == self.view_map(),
    {
        proof {
            use_type_invariant(self);
            lemma_pairs_map_distinct(self.entries@);
        }
        let t = self.duplicate();
        assert(pairs_map(pair_views(self.entries@)) =~= self.view_map());
        t.entries
    }

    /// A copy of the table, with the same entries in the same order.
    pub fn duplicate(&self) -> (t: Self)
        ensures
            t.entries() == self.entries(),
            t.view_map() == self.view_map(),
    {
        proof {
            use_type_invariant(self);
        }
        let mut v: Vec<(String, String)> = Vec::new();
        let mut i: usize = 0;
        while i < self.entries.len()
            invariant
                i <= self.entries@.len(),
                v@ == self.entries@.take(i as int),
            decreases self.entries@.len() - i,
        {
            let e = &self.entries[i];
            v.push((e.0.clone(), e.1.clone()));
            assert(self.entries@.take(i + 1) =~= self.entries@.take(i as int).push(self.entries@[i as int]));
            i += 1;
        }
        assert(self.entries@.take(self.entries@.len() as int) =~= self.entries@);
        let t = StrTable { entries: v };
        assert(t.view_map() =~= self.view_map());
        t
    }
}

} // verus!
