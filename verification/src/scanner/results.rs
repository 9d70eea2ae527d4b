//! The per-task result map: string keys to string values, shared by all
//! actions of one task. Insertion order is kept, so formatted output is
//! deterministic; inserting under an existing key replaces its value in
//! place.

use crate::utils::text::str_eq;
use vstd::prelude::*;

verus! {

/// The abstract content of a result map: its pairs in order.
pub type ResultPairs = Seq<(Seq<char>, Seq<char>)>;

/// Whether the pairs hold the key.
pub open spec fn assoc_contains(ps: ResultPairs, key: Seq<char>) -> bool {
    exists|i: int| 0 <= i < ps.len() && (#[trigger] ps[i]).0 == key
}

/// The value under the key, at its first occurrence.
pub open spec fn assoc_get(ps: ResultPairs, key: Seq<char>) -> Seq<char>
    decreases ps.len(),
{
    if ps.len() == 0 {
        Seq::empty()
    } else if ps[0].0 == key {
        ps[0].1
    } else {
        assoc_get(ps.drop_first(), key)
    }
}

/// The pairs after binding `key` to `value`: replaced in place when the
/// key is present, appended otherwise.
pub open spec fn assoc_insert(ps: ResultPairs, key: Seq<char>, value: Seq<char>) -> ResultPairs
    decreases ps.len(),
{
    if ps.len() == 0 {
        seq![(key, value)]
    } else if ps[0].0 == key {
        seq![(key, value)] + ps.drop_first()
    } else {
        seq![ps[0]] + assoc_insert(ps.drop_first(), key, value)
    }
}

/// Inserting keeps every key that was there and adds the new one.
pub proof fn lemma_assoc_insert_keys(ps: ResultPairs, key: Seq<char>, value: Seq<char>)
    ensures
        assoc_contains(assoc_insert(ps, key, value), key),
        forall|k: Seq<char>|
            assoc_contains(ps, k) ==> assoc_contains(#[trigger] assoc_insert(ps, key, value), k),
    decreases ps.len(),
{
    let out = assoc_insert(ps, key, value);
    if ps.len() == 0 {
        assert(out[0].0 == key);
    } else if ps[0].0 == key {
        assert(out[0].0 == key);
        assert forall|k: Seq<char>| assoc_contains(ps, k) implies assoc_contains(out, k) by {
            let i = choose|i: int| 0 <= i < ps.len() && (#[trigger] ps[i]).0 == k;
            if i == 0 {
                assert(out[0].0 == k);
            } else {
                assert(out[i] == ps[i]);
            }
        }
    } else {
        lemma_assoc_insert_keys(ps.drop_first(), key, value);
        let sub = assoc_insert(ps.drop_first(), key, value);
        assert(exists|i: int| 0 <= i < sub.len() && (#[trigger] sub[i]).0 == key);
        let i = choose|i: int| 0 <= i < sub.len() && (#[trigger] sub[i]).0 == key;
        assert(out[i + 1] == sub[i]);
        assert forall|k: Seq<char>| assoc_contains(ps, k) implies assoc_contains(out, k) by {
            let i0 = choose|i0: int| 0 <= i0 < ps.len() && (#[trigger] ps[i0]).0 == k;
            if i0 == 0 {
                assert(out[0].0 == k);
            } else {
                assert(ps.drop_first()[i0 - 1].0 == k);
                assert(assoc_contains(ps.drop_first(), k));
                let i1 = choose|i1: int| 0 <= i1 < sub.len() && (#[trigger] sub[i1]).0 == k;
                assert(out[i1 + 1] == sub[i1]);
            }
        }
    }
}

/// The deep view of a pair of strings.
pub open spec fn pair_view(p: (String, String)) -> (Seq<char>, Seq<char>) {
    (p.0@, p.1@)
}

/// A string-keyed, string-valued map that keeps insertion order.
#[derive(Clone)]
pub struct ResultMap {
    pairs: Vec<(String, String)>,
}

impl View for ResultMap {
    type V = ResultPairs;

    closed spec fn view(&self) -> ResultPairs {
        self.pairs@.map_values(|p: (String, String)| pair_view(p))
    }
}

impl ResultMap {
    /// An empty map.
    pub fn new() -> (m: ResultMap)
        ensures
            m@ == Seq::<(Seq<char>, Seq<char>)>::empty(),
    {
        let m = ResultMap { pairs: Vec::new() };
        proof {
            assert(m@ =~= Seq::<(Seq<char>, Seq<char>)>::empty());
        }
        m
    }

    /// The number of entries.
    pub fn len(&self) -> (r: usize)
        ensures
            r == self@.len(),
    {
        self.pairs.len()
    }

    /// The entries in order, for walking the map.
    pub fn entries(&self) -> (r: &Vec<(String, String)>)
        ensures
            r@.map_values(|p: (String, String)| pair_view(p)) == self@,
    {
        &self.pairs
    }

    /// Binds `key` to `value`, replacing in place or appending.
    pub fn insert(&mut self, key: String, value: String)
        ensures
            final(self)@ == assoc_insert(old(self)@, key@, value@),
    {
        let n = self.pairs.len();
        let mut i: usize = 0;
        while i < n
            invariant
                i <= n,
                n == self.pairs@.len(),
                forall|j: int| 0 <= j < i ==> (#[trigger] self.pairs@[j]).0@ != key@,
                self.pairs == old(self).pairs,
            decreases n - i,
        {
            if str_eq(self.pairs[i].0.as_str(), key.as_str()) {
                let ghost before = self.pairs@;
                self.pairs.set(i, (key, value));
                proof {
                    lemma_assoc_insert_at(
                        before.map_values(|p: (String, String)| pair_view(p)),
                        key@,
                        value@,
                        i as int,
                    );
                    assert(self@ =~= assoc_insert(old(self)@, key@, value@));
                }
                return ;
            }
            i = i + 1;
        }
        let ghost before = self.pairs@;
        self.pairs.push((key, value));
        proof {
            lemma_assoc_insert_missing(
                before.map_values(|p: (String, String)| pair_view(p)),
                key@,
                value@,
            );
            assert(self@ =~= assoc_insert(old(self)@, key@, value@));
        }
    }

    /// Looks a key up, returning a copy of its value.
    pub fn get(&self, key: &str) -> (r: Option<String>)
        ensures
            match r {
                Some(v) => assoc_contains(self@, key@) && v@ == assoc_get(self@, key@),
                None => !assoc_contains(self@, key@),
            },
    {
        let n = self.pairs.len();
        let mut i: usize = 0;
        while i < n
            invariant
                i <= n,
                n == self.pairs@.len(),
                forall|j: int| 0 <= j < i ==> (#[trigger] self.pairs@[j]).0@ != key@,
            decreases n - i,
        {
            if str_eq(self.pairs[i].0.as_str(), key) {
                proof {
                    lemma_assoc_get_at(self@, key@, i as int);
                }
                return Some(self.pairs[i].1.clone());
            }
            i = i + 1;
        }
        proof {
            assert forall|i: int| 0 <= i < self@.len() implies (#[trigger] self@[i]).0 != key@ by {
                assert(self@[i] == pair_view(self.pairs@[i]));
            }
        }
        None
    }

    /// Whether the key is bound.
    pub fn contains_key(&self, key: &str) -> (r: bool)
        ensures
            r == assoc_contains(self@, key@),
    {
        match self.get(key) {
            Some(_) => true,
            None => false,
        }
    }

    /// Whether two maps hold the same pairs in the same order.
    pub fn same_entries(&self, other: &ResultMap) -> (r: bool)
        ensures
            r == (self@ == other@),
    {
        let n = self.pairs.len();
        if n != other.pairs.len() {
            proof {
                assert(self@.len() == self.pairs@.len());
                assert(other@.len() == other.pairs@.len());
            }
            return false;
        }
        let mut i: usize = 0;
        while i < n
            invariant
                i <= n,
                n == self.pairs@.len(),
                n == other.pairs@.len(),
                forall|j: int| 0 <= j < i ==> (#[trigger] self@[j]) == other@[j],
            decreases n - i,
        {
            proof {
                assert(self@[i as int] == pair_view(self.pairs@[i as int]));
                assert(other@[i as int] == pair_view(other.pairs@[i as int]));
            }
            if !str_eq(self.pairs[i].0.as_str(), other.pairs[i].0.as_str()) {
                return false;
            }
            if !str_eq(self.pairs[i].1.as_str(), other.pairs[i].1.as_str()) {
                return false;
            }
            i = i + 1;
        }
        proof {
            assert(self@ =~= other@);
        }
        true
    }

    /// Copies the map.
    pub fn duplicate(&self) -> (r: ResultMap)
        ensures
            r@ == self@,
    {
        let mut out = ResultMap { pairs: Vec::new() };
        let n = self.pairs.len();
        let mut i: usize = 0;
        while i < n
            invariant
                i <= n,
                n == self.pairs@.len(),
                out.pairs@ =~= self.pairs@.take(i as int),
            decreases n - i,
        {
            let entry = (self.pairs[i].0.clone(), self.pairs[i].1.clone());
            proof {
                assert(entry == self.pairs@[i as int]);
            }
            out.pairs.push(entry);
            proof {
                assert(out.pairs@ =~= self.pairs@.take(i + 1));
            }
            i = i + 1;
        }
        proof {
            assert(out.pairs@ =~= self.pairs@);
            assert(out.pairs@ == self.pairs@);
        }
        out
    }
}

proof fn lemma_assoc_get_at(ps: ResultPairs, key: Seq<char>, i: int)
    requires
        0 <= i < ps.len(),
        ps[i].0 == key,
        forall|j: int| 0 <= j < i ==> (#[trigger] ps[j]).0 != key,
    ensures
        assoc_contains(ps, key),
        assoc_get(ps, key) == ps[i].1,
    decreases i,
{
    if i == 0 {
    } else {
        assert(ps.drop_first()[i - 1] == ps[i]);
        assert forall|j: int| 0 <= j < i - 1 implies (#[trigger] ps.drop_first()[j]).0 != key by {
            assert(ps.drop_first()[j] == ps[j + 1]);
        }
        lemma_assoc_get_at(ps.drop_first(), key, i - 1);
        let k = choose|k: int|
            0 <= k < ps.drop_first().len() && (#[trigger] ps.drop_first()[k]).0 == key;
        assert(ps[k + 1].0 == key);
    }
}

proof fn lemma_assoc_insert_at(ps: ResultPairs, key: Seq<char>, value: Seq<char>, i: int)
    requires
        0 <= i < ps.len(),
        ps[i].0 == key,
        forall|j: int| 0 <= j < i ==> (#[trigger] ps[j]).0 != key,
    ensures
        assoc_insert(ps, key, value) == ps.update(i, (key, value)),
    decreases i,
{
    if i == 0 {
        assert(assoc_insert(ps, key, value) =~= ps.update(0, (key, value)));
    } else {
        assert forall|j: int| 0 <= j < i - 1 implies (#[trigger] ps.drop_first()[j]).0 != key by {
            assert(ps.drop_first()[j] == ps[j + 1]);
        }
        assert(ps.drop_first()[i - 1] == ps[i]);
        lemma_assoc_insert_at(ps.drop_first(), key, value, i - 1);
        assert(assoc_insert(ps, key, value) =~= ps.update(i, (key, value)));
    }
}

proof fn lemma_assoc_insert_missing(ps: ResultPairs, key: Seq<char>, value: Seq<char>)
    requires
        forall|j: int| 0 <= j < ps.len() ==> (#[trigger] ps[j]).0 != key,
    ensures
        assoc_insert(ps, key, value) == ps.push((key, value)),
    decreases ps.len(),
{
    if ps.len() == 0 {
        assert(assoc_insert(ps, key, value) =~= ps.push((key, value)));
    } else {
        assert forall|j: int|
            0 <= j < ps.drop_first().len() implies (#[trigger] ps.drop_first()[j]).0 != key by {
            assert(ps.drop_first()[j] == ps[j + 1]);
        }
        lemma_assoc_insert_missing(ps.drop_first(), key, value);
        assert(assoc_insert(ps, key, value) =~= ps.push((key, value)));
    }
}

} // verus!
