//! The order of texts, and lists kept in that order.

use crate::scan::chars_of;
use crate::text;
use vstd::prelude::*;

verus! {

/// Dictionary order on texts, by character.
pub open spec fn before(a: Seq<char>, b: Seq<char>) -> bool
    decreases a.len(),
{
    if b.len() == 0 {
        false
    } else if a.len() == 0 {
        true
    } else if a[0] != b[0] {
        (a[0] as int) < (b[0] as int)
    } else {
        before(a.skip(1), b.skip(1))
    }
}

/// No text comes before itself.
pub proof fn lemma_before_irreflexive(a: Seq<char>)
    ensures
        !before(a, a),
    decreases a.len(),
{
    if a.len() > 0 {
        lemma_before_irreflexive(a.skip(1));
    }
}

/// Of two different texts exactly one comes before the other.
pub proof fn lemma_before_total(a: Seq<char>, b: Seq<char>)
    ensures
        a == b || before(a, b) || before(b, a),
        !(before(a, b) && before(b, a)),
        before(a, b) ==> a != b,
    decreases a.len(),
{
    if a.len() > 0 && b.len() > 0 {
        lemma_before_total(a.skip(1), b.skip(1));
        if a[0] == b[0] && a.skip(1) == b.skip(1) {
            assert(a =~= seq![a[0]] + a.skip(1));
            assert(b =~= seq![b[0]] + b.skip(1));
        }
    } else if a.len() == 0 && b.len() == 0 {
        assert(a =~= b);
    }
}

/// The order is transitive.
pub proof fn lemma_before_transitive(a: Seq<char>, b: Seq<char>, c: Seq<char>)
    requires
        before(a, b),
        before(b, c),
    ensures
        before(a, c),
    decreases a.len(),
{
    if a.len() > 0 {
        if a[0] == b[0] && b[0] == c[0] {
            lemma_before_transitive(a.skip(1), b.skip(1), c.skip(1));
        }
    }
}

/// Does one text come before the other?
pub fn precedes(a: &str, b: &str) -> (r: bool)
    ensures
        r == before(a@, b@),
{
    let x: Vec<char> = chars_of(a);
    let y: Vec<char> = chars_of(b);
    let mut i: usize = 0;
    proof {
        assert(a@.skip(0) =~= a@);
        assert(b@.skip(0) =~= b@);
    }
    while i < x.len() && i < y.len() && x[i] == y[i]
        invariant
            i <= x.len(),
            i <= y.len(),
            x@ == a@,
            y@ == b@,
            before(a@, b@) == before(a@.skip(i as int), b@.skip(i as int)),
        decreases x.len() - i,
    {
        proof {
            assert(a@.skip(i as int).skip(1) =~= a@.skip(i + 1));
            assert(b@.skip(i as int).skip(1) =~= b@.skip(i + 1));
        }
        i = i + 1;
    }
    if i >= y.len() {
        false
    } else if i >= x.len() {
        true
    } else {
        let c: char = x[i];
        let d: char = y[i];
        c < d
    }
}

/// Is the list in strictly rising order, so that no text is in it twice?
pub open spec fn rising(s: Seq<Seq<char>>) -> bool {
    forall|i: int, j: int| 0 <= i < j < s.len() ==> before(#[trigger] s[i], #[trigger] s[j])
}

/// A rising list with a text put in its place; nothing changes when the text
/// is there already.
pub open spec fn put(s: Seq<Seq<char>>, k: Seq<char>) -> Seq<Seq<char>>
    decreases s.len(),
{
    if s.len() == 0 {
        seq![k]
    } else if s[0] == k {
        s
    } else if before(k, s[0]) {
        seq![k] + s
    } else {
        seq![s[0]] + put(s.skip(1), k)
    }
}

/// Putting a text in keeps the list rising, and adds that text alone.
pub proof fn lemma_put(s: Seq<Seq<char>>, k: Seq<char>)
    requires
        rising(s),
    ensures
        rising(put(s, k)),
        forall|x: Seq<char>| #[trigger] put(s, k).contains(x) <==> s.contains(x) || x == k,
    decreases s.len(),
{
    let r = put(s, k);
    if s.len() == 0 {
        assert(r[0] == k);
        assert forall|x: Seq<char>| #[trigger] r.contains(x) <==> s.contains(x) || x == k by {
            if x == k {
                assert(r[0] == x);
            }
        }
    } else if s[0] == k {
        assert(s.contains(k));
    } else if before(k, s[0]) {
        assert forall|i: int, j: int| 0 <= i < j < r.len() implies before(
            #[trigger] r[i],
            #[trigger] r[j],
        ) by {
            if i == 0 {
                if j > 1 {
                    assert(before(s[0], s[j - 1]));
                    lemma_before_transitive(k, s[0], s[j - 1]);
                }
            } else {
                assert(before(s[i - 1], s[j - 1]));
            }
        }
        assert forall|x: Seq<char>| #[trigger] r.contains(x) <==> s.contains(x) || x == k by {
            if x == k {
                assert(r[0] == x);
            }
            if s.contains(x) {
                let i = choose|i: int| 0 <= i < s.len() && s[i] == x;
                assert(r[i + 1] == x);
            }
            if r.contains(x) && x != k {
                let i = choose|i: int| 0 <= i < r.len() && r[i] == x;
                assert(s[i - 1] == x);
            }
        }
    } else {
        let t = s.skip(1);
        assert(rising(t)) by {
            assert forall|i: int, j: int| 0 <= i < j < t.len() implies before(
                #[trigger] t[i],
                #[trigger] t[j],
            ) by {
                assert(before(s[i + 1], s[j + 1]));
            }
        }
        lemma_put(t, k);
        lemma_before_total(k, s[0]);
        let u = put(t, k);
        assert forall|j: int| 0 <= j < u.len() implies before(s[0], #[trigger] u[j]) by {
            assert(u.contains(u[j]));
            if u[j] != k {
                let i = choose|i: int| 0 <= i < t.len() && t[i] == u[j];
                assert(before(s[0], s[i + 1]));
            }
        }
        assert forall|i: int, j: int| 0 <= i < j < r.len() implies before(
            #[trigger] r[i],
            #[trigger] r[j],
        ) by {
            if i > 0 {
                assert(before(u[i - 1], u[j - 1]));
            } else {
                assert(r[j] == u[j - 1]);
            }
        }
        assert forall|x: Seq<char>| #[trigger] r.contains(x) <==> s.contains(x) || x == k by {
            if s.contains(x) {
                let i = choose|i: int| 0 <= i < s.len() && s[i] == x;
                if i == 0 {
                    assert(r[0] == x);
                } else {
                    assert(t[i - 1] == x);
                    assert(u.contains(x));
                    let m = choose|m: int| 0 <= m < u.len() && u[m] == x;
                    assert(r[m + 1] == x);
                }
            }
            if x == k {
                assert(u.contains(x));
                let m = choose|m: int| 0 <= m < u.len() && u[m] == x;
                assert(r[m + 1] == x);
            }
            if r.contains(x) && x != k {
                let i = choose|i: int| 0 <= i < r.len() && r[i] == x;
                if i == 0 {
                    assert(s[0] == x);
                } else {
                    assert(u[i - 1] == x);
                    assert(u.contains(x));
                    let m = choose|m: int| 0 <= m < t.len() && t[m] == x;
                    assert(s[m + 1] == x);
                }
            }
        }
    }
}

/// Skipping a prefix of texts that come before `k` does not change where `k`
/// goes.
proof fn lemma_put_skip(s: Seq<Seq<char>>, k: Seq<char>, i: int)
    requires
        0 <= i <= s.len(),
        forall|j: int| 0 <= j < i ==> before(#[trigger] s[j], k),
    ensures
        put(s, k) == s.take(i) + put(s.skip(i), k),
    decreases i,
{
    if i == 0 {
        assert(s.skip(0) =~= s);
        assert(s.take(0) + put(s.skip(0), k) =~= put(s, k));
    } else {
        assert(before(s[0], k));
        lemma_before_total(s[0], k);
        let t = s.skip(1);
        assert forall|j: int| 0 <= j < i - 1 implies before(#[trigger] t[j], k) by {
            assert(before(s[j + 1], k));
        }
        lemma_put_skip(t, k, i - 1);
        assert(t.skip(i - 1) =~= s.skip(i));
        assert(seq![s[0]] + (t.take(i - 1) + put(s.skip(i), k)) =~= s.take(i) + put(s.skip(i), k));
    }
}

/// Put a text in its place in a rising list.
pub fn insert_key(v: &mut Vec<String>, k: String)
    ensures
        text::strs(final(v)@) == put(text::strs(old(v)@), k@),
{
    let ghost s = text::strs(v@);
    let ghost before_insert = v@;
    let mut i: usize = 0;
    while i < v.len() && precedes(v[i].as_str(), k.as_str())
        invariant
            i <= v.len(),
            v@ == before_insert,
            s == text::strs(v@),
            forall|j: int| 0 <= j < i ==> before(#[trigger] s[j], k@),
        decreases v.len() - i,
    {
        i = i + 1;
    }
    proof {
        lemma_put_skip(s, k@, i as int);
        if i < s.len() {
            assert(s.skip(i as int)[0] == s[i as int]);
            lemma_before_total(s[i as int], k@);
            assert(s.take(i as int) + s.skip(i as int) =~= s);
        } else {
            assert(s.skip(i as int).len() == 0);
        }
    }
    if i < v.len() && v[i] == k {
        return;
    }
    v.insert(i, k);
    proof {
        assert(text::strs(v@) =~= s.take(i as int) + (seq![k@] + s.skip(i as int)));
        if i == s.len() {
            assert(seq![k@] + s.skip(i as int) =~= seq![k@]);
        }
    }
}

} // verus!
