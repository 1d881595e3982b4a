//! Name patterns, in which `*` stands for any run of characters.

use crate::lettercase;
use crate::lettercase::lower;
use crate::pick;
use crate::scan::chars_of;
use crate::text;
use crate::text::{no_lines, say};
use vstd::prelude::*;

verus! {

/// Does a text match a pattern? A star matches nothing, or one character and
/// then what a star matches; every other character matches itself.
pub open spec fn matches(p: Seq<char>, t: Seq<char>) -> bool
    decreases p.len(), t.len(),
{
    if p.len() == 0 {
        t.len() == 0
    } else if p[0] == '*' {
        matches(p.skip(1), t) || (t.len() > 0 && matches(p, t.skip(1)))
    } else {
        t.len() > 0 && t[0] == p[0] && matches(p.skip(1), t.skip(1))
    }
}

/// A star matches any run of characters: the text matches where what follows
/// the star matches behind some part of the text.
pub proof fn stars_match_any_run(p: Seq<char>, t: Seq<char>)
    requires
        p.len() > 0,
        p[0] == '*',
    ensures
        matches(p, t) <==> exists|k: int|
            0 <= k <= t.len() && #[trigger] matches(p.skip(1), t.skip(k)),
    decreases t.len(),
{
    assert(t.skip(0) =~= t);
    if t.len() > 0 {
        let u = t.skip(1);
        stars_match_any_run(p, u);
        if matches(p, u) {
            let k = choose|k: int| 0 <= k <= u.len() && #[trigger] matches(p.skip(1), u.skip(k));
            assert(u.skip(k) =~= t.skip(k + 1));
            assert(matches(p.skip(1), t.skip(k + 1)));
        }
        if exists|k: int| 0 <= k <= t.len() && #[trigger] matches(p.skip(1), t.skip(k)) {
            let k = choose|k: int| 0 <= k <= t.len() && #[trigger] matches(p.skip(1), t.skip(k));
            if k > 0 {
                assert(u.skip(k - 1) =~= t.skip(k));
                assert(matches(p.skip(1), u.skip(k - 1)));
            }
        }
    }
    if matches(p.skip(1), t) {
        assert(matches(p.skip(1), t.skip(0)));
    }
}

/// Does a text match a pattern in which `*` matches any run of characters?
pub fn glob(pattern: &str, text: &str) -> (r: bool)
    ensures
        r == matches(pattern@, text@),
{
    let p: Vec<char> = chars_of(pattern);
    let t: Vec<char> = chars_of(text);
    let n: usize = t.len();
    // What the rest of the pattern matches, for each place in the text.
    let mut row: Vec<bool> = Vec::new();
    let mut j: usize = 0;
    while j < n
        invariant
            j <= n,
            n == t@.len(),
            row@.len() == j,
            forall|m: int| 0 <= m < j ==> #[trigger] row@[m] == false,
        decreases n - j,
    {
        row.push(false);
        j = j + 1;
    }
    row.push(true);
    let mut i: usize = p.len();
    proof {
        assert forall|m: int| 0 <= m <= n implies #[trigger] row@[m] == matches(
            p@.skip(i as int),
            t@.skip(m),
        ) by {}
    }
    while i > 0
        invariant
            i <= p@.len(),
            n == t@.len(),
            row@.len() == n + 1,
            forall|m: int|
                0 <= m <= n ==> #[trigger] row@[m] == matches(p@.skip(i as int), t@.skip(m)),
        decreases i,
    {
        let ghost below = p@.skip(i as int);
        i = i - 1;
        let ghost here = p@.skip(i as int);
        let ghost old_row = row@;
        proof {
            assert(here.skip(1) =~= below);
            assert(here[0] == p@[i as int]);
        }
        let c: char = p[i];
        if c == '*' {
            let mut j: usize = row.len();
            while j > 0
                invariant
                    j <= row@.len(),
                    n == t@.len(),
                    row@.len() == n + 1,
                    here.len() > 0,
                    here[0] == '*',
                    here.skip(1) == below,
                    forall|m: int| 0 <= m < j ==> #[trigger] row@[m] == matches(below, t@.skip(m)),
                    forall|m: int| j <= m <= n ==> #[trigger] row@[m] == matches(here, t@.skip(m)),
                decreases j,
            {
                j = j - 1;
                proof {
                    if j < n {
                        assert(t@.skip(j as int).skip(1) =~= t@.skip(j + 1));
                        assert(row@[j + 1] == matches(here, t@.skip(j + 1)));
                    }
                }
                let b: bool = row[j] || (j < n && row[j + 1]);
                row.set(j, b);
            }
        } else {
            let mut j: usize = 0;
            while j < n
                invariant
                    j <= n,
                    n == t@.len(),
                    t@.len() == t.len(),
                    row@.len() == n + 1,
                    here.len() > 0,
                    here[0] == c,
                    c != '*',
                    here.skip(1) == below,
                    forall|m: int| 0 <= m < j ==> #[trigger] row@[m] == matches(here, t@.skip(m)),
                    forall|m: int|
                        j <= m <= n ==> #[trigger] row@[m] == matches(below, t@.skip(m)),
                decreases n - j,
            {
                proof {
                    assert(t@.skip(j as int).skip(1) =~= t@.skip(j + 1));
                    assert(row@[j + 1] == matches(below, t@.skip(j + 1)));
                    assert(t@.skip(j as int)[0] == t@[j as int]);
                }
                let b: bool = t[j] == c && row[j + 1];
                row.set(j, b);
                j = j + 1;
            }
            row.set(n, false);
        }
    }
    proof {
        assert(p@.skip(0) =~= p@);
        assert(t@.skip(0) =~= t@);
        assert(row@[0] == matches(p@.skip(0), t@.skip(0)));
    }
    row[0]
}

/// Does the text match one of the first `n` patterns?
pub open spec fn one_matches(ps: Seq<Seq<char>>, t: Seq<char>, n: int) -> bool {
    pick::any(n, |i: int| matches(ps[i], t))
}

/// Does the text match one of the patterns?
pub fn any_glob(patterns: &Vec<String>, text: &str) -> (r: bool)
    ensures
        r == one_matches(text::strs(patterns@), text@, patterns@.len() as int),
{
    let ghost ps = text::strs(patterns@);
    let ghost q = |i: int| matches(ps[i], text@);
    let mut r: bool = false;
    let mut i: usize = 0;
    while i < patterns.len()
        invariant
            i <= patterns@.len(),
            ps == text::strs(patterns@),
            q == (|i: int| matches(ps[i], text@)),
            r == pick::any(i as int, q),
        decreases patterns@.len() - i,
    {
        proof {
            assert(ps[i as int] == patterns@[i as int]@);
        }
        if glob(patterns[i].as_str(), text) {
            r = true;
        }
        i = i + 1;
    }
    r
}

/// Texts in lower case.
pub open spec fn lowered(s: Seq<Seq<char>>) -> Seq<Seq<char>> {
    s.map_values(|t: Seq<char>| lettercase::lowercase(t))
}

/// Texts in lower case.
pub fn lower_all(v: &Vec<String>) -> (r: Vec<String>)
    ensures
        text::strs(r@) == lowered(text::strs(v@)),
{
    let mut r: Vec<String> = no_lines();
    let mut i: usize = 0;
    while i < v.len()
        invariant
            i <= v@.len(),
            text::strs(r@) == lowered(text::strs(v@).take(i as int)),
        decreases v@.len() - i,
    {
        let t: String = lower(v[i].as_str());
        proof {
            assert(lowered(text::strs(v@).take(i + 1)) =~= lowered(
                text::strs(v@).take(i as int),
            ).push(t@));
        }
        say(&mut r, t);
        i = i + 1;
    }
    proof {
        assert(text::strs(v@).take(i as int) =~= text::strs(v@));
    }
    r
}

/// A pattern without a star matches itself alone.
pub proof fn plain_patterns_match_themselves(p: Seq<char>, t: Seq<char>)
    requires
        !p.contains('*'),
    ensures
        matches(p, t) == (p == t),
    decreases p.len(),
{
    if p.len() > 0 {
        assert(p[0] != '*') by {
            assert(p.contains(p[0]));
        }
        assert(!p.skip(1).contains('*')) by {
            if p.skip(1).contains('*') {
                let k = choose|k: int| 0 <= k < p.skip(1).len() && p.skip(1)[k] == '*';
                assert(p[k + 1] == '*');
            }
        }
        if t.len() > 0 {
            plain_patterns_match_themselves(p.skip(1), t.skip(1));
            if p[0] == t[0] && p.skip(1) == t.skip(1) {
                assert(p =~= t) by {
                    assert forall|i: int| 0 <= i < p.len() implies p[i] == t[i] by {
                        if i > 0 {
                            assert(p.skip(1)[i - 1] == t.skip(1)[i - 1]);
                        }
                    }
                    assert(p.len() == p.skip(1).len() + 1);
                    assert(t.len() == t.skip(1).len() + 1);
                }
            }
        }
    } else {
        assert(t.len() == 0 ==> p =~= t);
    }
}

} // verus!
