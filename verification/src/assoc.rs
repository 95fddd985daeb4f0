//! Maps from text keys kept as lists of entries, where a later entry for a
//! key replaces an earlier one.

use vstd::prelude::*;
use vstd::string::*;
use crate::text::str_eq;

verus! {

/// Values whose deep views can be compared by running code.
pub trait DeepEq: DeepView + Sized {
    fn deep_eq(&self, other: &Self) -> (r: bool)
        ensures
            r == (self.deep_view() == other.deep_view());
}

impl DeepEq for String {
    fn deep_eq(&self, other: &Self) -> (r: bool) {
        str_eq(self.as_str(), other.as_str())
    }
}

impl DeepEq for i32 {
    fn deep_eq(&self, other: &Self) -> (r: bool) {
        *self == *other
    }
}

impl DeepEq for bool {
    fn deep_eq(&self, other: &Self) -> (r: bool) {
        *self == *other
    }
}

/// The map that a list of entries stands for: later entries win.
pub open spec fn assoc_map<V: DeepView>(s: Seq<(String, V)>) -> Map<Seq<char>, <V as DeepView>::V>
    decreases s.len(),
{
    if s.len() == 0 {
        Map::empty()
    } else {
        assoc_map(s.drop_last()).insert(s.last().0@, s.last().1.deep_view())
    }
}

pub proof fn lemma_assoc_last<V: DeepView>(s: Seq<(String, V)>, i: int)
    requires
        0 <= i < s.len(),
        forall|j: int| i < j < s.len() ==> (#[trigger] s[j]).0@ != s[i].0@,
    ensures
        assoc_map(s).contains_key(s[i].0@),
        assoc_map(s)[s[i].0@] == s[i].1.deep_view(),
    decreases s.len(),
{
    if i < s.len() - 1 {
        let t = s.drop_last();
        assert forall|j: int| i < j < t.len() implies (#[trigger] t[j]).0@ != t[i].0@ by {
            assert(t[j] == s[j]);
        }
        lemma_assoc_last(t, i);
        assert(s.last() == s[s.len() - 1]);
    }
}

pub proof fn lemma_assoc_absent<V: DeepView>(s: Seq<(String, V)>, k: Seq<char>)
    requires
        forall|j: int| 0 <= j < s.len() ==> (#[trigger] s[j]).0@ != k,
    ensures
        !assoc_map(s).contains_key(k),
    decreases s.len(),
{
    if s.len() > 0 {
        let t = s.drop_last();
        assert forall|j: int| 0 <= j < t.len() implies (#[trigger] t[j]).0@ != k by {
            assert(t[j] == s[j]);
        }
        lemma_assoc_absent(t, k);
        assert(s.last() == s[s.len() - 1]);
    }
}

pub proof fn lemma_assoc_key_present<V: DeepView>(s: Seq<(String, V)>, k: Seq<char>)
    requires
        assoc_map(s).contains_key(k),
    ensures
        exists|j: int| 0 <= j < s.len() && (#[trigger] s[j]).0@ == k,
{
    if forall|j: int| 0 <= j < s.len() ==> (#[trigger] s[j]).0@ != k {
        lemma_assoc_absent(s, k);
    }
}

pub proof fn lemma_assoc_has<V: DeepView>(s: Seq<(String, V)>, i: int)
    requires
        0 <= i < s.len(),
    ensures
        assoc_map(s).contains_key(s[i].0@),
    decreases s.len(),
{
    if i < s.len() - 1 {
        let t = s.drop_last();
        lemma_assoc_has(t, i);
        assert(t[i] == s[i]);
    }
}

/// The map a list of text pairs stands for: later pairs win.
pub open spec fn pairs_map(p: Seq<(Seq<char>, Seq<char>)>) -> Map<Seq<char>, Seq<char>>
    decreases p.len(),
{
    if p.len() == 0 {
        Map::empty()
    } else {
        pairs_map(p.drop_last()).insert(p.last().0, p.last().1)
    }
}

/// Pairs appended to a list override the earlier ones with the same key.
pub proof fn lemma_pairs_map_concat(a: Seq<(Seq<char>, Seq<char>)>, b: Seq<(Seq<char>, Seq<char>)>)
    ensures
        pairs_map(a + b) == pairs_map(a).union_prefer_right(pairs_map(b)),
    decreases b.len(),
{
    if b.len() == 0 {
        assert(a + b =~= a);
        assert(pairs_map(a).union_prefer_right(pairs_map(b)) =~= pairs_map(a));
    } else {
        assert((a + b).drop_last() =~= a + b.drop_last());
        assert((a + b).last() == b.last());
        lemma_pairs_map_concat(a, b.drop_last());
        assert(pairs_map(a + b) =~= pairs_map(a).union_prefer_right(pairs_map(b)));
    }
}

/// Index of the last entry with key `k`.
pub fn assoc_find<V>(s: &Vec<(String, V)>, k: &str) -> (r: Option<usize>)
    ensures
        match r {
            Some(i) => i < s@.len() && s@[i as int].0@ == k@ && forall|j: int|
                i < j < s@.len() ==> (#[trigger] s@[j]).0@ != k@,
            None => forall|j: int| 0 <= j < s@.len() ==> (#[trigger] s@[j]).0@ != k@,
        },
{
    let mut i: usize = s.len();
    while i > 0
        invariant
            i <= s@.len(),
            forall|j: int| i <= j < s@.len() ==> (#[trigger] s@[j]).0@ != k@,
        decreases i,
    {
        if str_eq(s[i - 1].0.as_str(), k) {
            return Some(i - 1);
        }
        i = i - 1;
    }
    None
}

/// The value stored for `k`, if any.
pub fn assoc_get<'a, V: DeepView>(s: &'a Vec<(String, V)>, k: &str) -> (r: Option<&'a V>)
    ensures
        match r {
            Some(v) => assoc_map(s@).contains_key(k@) && assoc_map(s@)[k@] == v.deep_view(),
            None => !assoc_map(s@).contains_key(k@),
        },
{
    match assoc_find(s, k) {
        Some(i) => {
            proof {
                lemma_assoc_last(s@, i as int);
            }
            Some(&s[i].1)
        },
        None => {
            proof {
                lemma_assoc_absent(s@, k@);
            }
            None
        },
    }
}

/// Whether two entry lists stand for the same map.
pub fn assoc_map_eq<V: DeepEq>(a: &Vec<(String, V)>, b: &Vec<(String, V)>) -> (r: bool)
    ensures
        r == (assoc_map(a@) == assoc_map(b@)),
{
    let mut i: usize = 0;
    while i < a.len()
        invariant
            i <= a@.len(),
            forall|j: int|
                0 <= j < i ==> {
                    let k = (#[trigger] a@[j]).0@;
                    assoc_map(b@).contains_key(k) && assoc_map(b@)[k] == assoc_map(a@)[k]
                },
        decreases a@.len() - i,
    {
        let k = a[i].0.as_str();
        let vb = assoc_get(b, k);
        let va = assoc_get(a, k);
        proof {
            lemma_assoc_has(a@, i as int);
        }
        match (va, vb) {
            (Some(x), Some(y)) => {
                if !x.deep_eq(y) {
                    return false;
                }
            },
            _ => {
                return false;
            },
        }
        i = i + 1;
    }
    let mut j: usize = 0;
    while j < b.len()
        invariant
            j <= b@.len(),
            forall|m: int| 0 <= m < j ==> assoc_map(a@).contains_key((#[trigger] b@[m]).0@),
        decreases b@.len() - j,
    {
        proof {
            lemma_assoc_has(b@, j as int);
        }
        if assoc_get(a, b[j].0.as_str()).is_none() {
            return false;
        }
        j = j + 1;
    }
    proof {
        assert forall|k: Seq<char>| #[trigger] assoc_map(a@).contains_key(k) implies assoc_map(b@).contains_key(k)
            && assoc_map(b@)[k] == assoc_map(a@)[k] by {
            lemma_assoc_key_present(a@, k);
            let w = choose|w: int| 0 <= w < a@.len() && (#[trigger] a@[w]).0@ == k;
            assert(a@[w].0@ == k);
        }
        assert forall|k: Seq<char>| #[trigger] assoc_map(b@).contains_key(k) implies assoc_map(a@).contains_key(k) by {
            lemma_assoc_key_present(b@, k);
            let w = choose|w: int| 0 <= w < b@.len() && (#[trigger] b@[w]).0@ == k;
            assert(b@[w].0@ == k);
        }
        assert(assoc_map(a@) =~= assoc_map(b@));
    }
    true
}

} // verus!
