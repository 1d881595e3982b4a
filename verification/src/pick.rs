//! Going through the indices of a list in order: what the rules collect, find
//! and count on the way.

use crate::numeral;
use crate::order;
use crate::order::insert_key;
use crate::text;
use crate::text::no_lines;
use vstd::prelude::*;

verus! {

/// What `f` gives at the indices below `n`, in order.
pub open spec fn gather<A>(n: int, f: spec_fn(int) -> Seq<A>) -> Seq<A>
    decreases n,
{
    if n <= 0 {
        Seq::empty()
    } else {
        gather(n - 1, f) + f(n - 1)
    }
}

/// The first index below `n` at which `p` holds.
pub open spec fn first(n: int, p: spec_fn(int) -> bool) -> Option<int>
    decreases n,
{
    if n <= 0 {
        None
    } else {
        match first(n - 1, p) {
            Some(i) => Some(i),
            None => if p(n - 1) {
                Some(n - 1)
            } else {
                None
            },
        }
    }
}

/// The last index below `n` at which `p` holds.
pub open spec fn last(n: int, p: spec_fn(int) -> bool) -> Option<int>
    decreases n,
{
    if n <= 0 {
        None
    } else if p(n - 1) {
        Some(n - 1)
    } else {
        last(n - 1, p)
    }
}

/// Does `p` hold at some index below `n`?
pub open spec fn any(n: int, p: spec_fn(int) -> bool) -> bool
    decreases n,
{
    n > 0 && (any(n - 1, p) || p(n - 1))
}

/// How many indices below `n` does `p` hold at?
pub open spec fn tally(n: int, p: spec_fn(int) -> bool) -> nat
    decreases n,
{
    if n <= 0 {
        0
    } else if p(n - 1) {
        tally(n - 1, p) + 1
    } else {
        tally(n - 1, p)
    }
}

/// The sum of `f` over the indices below `n`, where a sum that is too large or
/// too small for 64 bits stops at the bound.
pub open spec fn sum64(n: int, f: spec_fn(int) -> int) -> int
    decreases n,
{
    if n <= 0 {
        0
    } else {
        numeral::clamp64(sum64(n - 1, f) + f(n - 1))
    }
}

/// The largest of `f` over the indices below `n`.
pub open spec fn largest(n: int, f: spec_fn(int) -> int) -> Option<int>
    decreases n,
{
    if n <= 0 {
        None
    } else {
        match largest(n - 1, f) {
            Some(m) => Some(
                if f(n - 1) > m {
                    f(n - 1)
                } else {
                    m
                },
            ),
            None => Some(f(n - 1)),
        }
    }
}

/// The different texts that `f` gives at the indices below `n`, in rising
/// order.
pub open spec fn keys(n: int, f: spec_fn(int) -> Option<Seq<char>>) -> Seq<Seq<char>>
    decreases n,
{
    if n <= 0 {
        Seq::empty()
    } else {
        match f(n - 1) {
            Some(k) => order::put(keys(n - 1, f), k),
            None => keys(n - 1, f),
        }
    }
}

/// The texts of a list in rising order, each once.
pub open spec fn distinct(s: Seq<Seq<char>>) -> Seq<Seq<char>> {
    keys(s.len() as int, |i: int| Some(s[i]))
}

/// The texts of a list in rising order, each once.
pub fn sorted_distinct(v: &Vec<String>) -> (r: Vec<String>)
    ensures
        text::strs(r@) == distinct(text::strs(v@)),
{
    let mut r: Vec<String> = no_lines();
    let ghost s = text::strs(v@);
    let ghost f = |i: int| Some(s[i]);
    let mut i: usize = 0;
    while i < v.len()
        invariant
            i <= v@.len(),
            s == text::strs(v@),
            f == (|i: int| Some(s[i])),
            text::strs(r@) == keys(i as int, f),
        decreases v@.len() - i,
    {
        proof {
            assert(s[i as int] == v@[i as int]@);
        }
        insert_key(&mut r, v[i].clone());
        i = i + 1;
    }
    r
}

/// Adding nothing changes nothing.
pub broadcast proof fn lemma_add_nothing<A>(s: Seq<A>)
    ensures
        #[trigger] (s + Seq::<A>::empty()) == s,
{
    assert(s + Seq::<A>::empty() =~= s);
}

/// `any` is existence.
pub proof fn lemma_any(n: int, p: spec_fn(int) -> bool)
    ensures
        any(n, p) <==> exists|i: int| 0 <= i < n && #[trigger] p(i),
    decreases n,
{
    if n > 0 {
        lemma_any(n - 1, p);
        if p(n - 1) {
            assert(0 <= n - 1 < n && p(n - 1));
        }
    }
}

/// `first` is the least index.
pub proof fn lemma_first(n: int, p: spec_fn(int) -> bool)
    ensures
        match first(n, p) {
            Some(i) => 0 <= i < n && p(i) && (forall|j: int| 0 <= j < i ==> !#[trigger] p(j)),
            None => forall|j: int| 0 <= j < n ==> !#[trigger] p(j),
        },
    decreases n,
{
    if n > 0 {
        lemma_first(n - 1, p);
    }
}

/// No more indices than there are can be counted.
pub proof fn lemma_tally_bound(n: int, p: spec_fn(int) -> bool)
    ensures
        n >= 0 ==> tally(n, p) <= n,
        n < 0 ==> tally(n, p) == 0,
    decreases n,
{
    if n > 0 {
        lemma_tally_bound(n - 1, p);
    }
}

/// Every element of `gather` comes from one index, and every element that an
/// index gives is there.
pub proof fn lemma_gather_contains<A>(n: int, f: spec_fn(int) -> Seq<A>, x: A)
    ensures
        gather(n, f).contains(x) <==> exists|i: int| 0 <= i < n && (#[trigger] f(i)).contains(x),
    decreases n,
{
    if n > 0 {
        lemma_gather_contains(n - 1, f, x);
        let a = gather(n - 1, f);
        let b = f(n - 1);
        if a.contains(x) {
            let k = choose|k: int| 0 <= k < a.len() && a[k] == x;
            assert((a + b)[k] == x);
        }
        if b.contains(x) {
            let k = choose|k: int| 0 <= k < b.len() && b[k] == x;
            assert((a + b)[a.len() + k] == x);
        }
        if (a + b).contains(x) {
            let k = choose|k: int| 0 <= k < (a + b).len() && (a + b)[k] == x;
            if k < a.len() {
                assert(a[k] == x);
            } else {
                assert(b[k - a.len()] == x);
            }
        }
    }
}

/// The keys are in rising order and are exactly the texts that occur.
pub proof fn lemma_keys(n: int, f: spec_fn(int) -> Option<Seq<char>>)
    ensures
        order::rising(keys(n, f)),
        forall|k: Seq<char>| #[trigger]
            keys(n, f).contains(k) <==> exists|i: int| 0 <= i < n && #[trigger] f(i) == Some(k),
    decreases n,
{
    if n > 0 {
        lemma_keys(n - 1, f);
        let a = keys(n - 1, f);
        match f(n - 1) {
            Some(x) => {
                order::lemma_put(a, x);
                assert forall|k: Seq<char>| #[trigger]
                    keys(n, f).contains(k) <==> exists|i: int|
                        0 <= i < n && #[trigger] f(i) == Some(k) by {
                    if k == x {
                        assert(0 <= n - 1 < n && f(n - 1) == Some(k));
                    }
                    if a.contains(k) {
                        let i = choose|i: int| 0 <= i < n - 1 && #[trigger] f(i) == Some(k);
                        assert(0 <= i < n && f(i) == Some(k));
                    }
                }
            },
            None => {
                assert forall|k: Seq<char>| #[trigger]
                    keys(n, f).contains(k) <==> exists|i: int|
                        0 <= i < n && #[trigger] f(i) == Some(k) by {
                    if a.contains(k) {
                        let i = choose|i: int| 0 <= i < n - 1 && #[trigger] f(i) == Some(k);
                        assert(0 <= i < n && f(i) == Some(k));
                    }
                }
            },
        }
    }
}

} // verus!
