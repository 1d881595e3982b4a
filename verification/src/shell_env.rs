//! The search path for commands. Desktop apps don't inherit the one of the
//! user's shell, so it is put together from the shell's, the current one and
//! the usual places.

use crate::pick;
use crate::scan;
use crate::scan::{chars_of, cut, stands_at, trimmed};
use crate::split;
use crate::split::{joined, parts};
use crate::text;
use crate::text::{cat2, listed, no_lines, say};
use vstd::prelude::*;

verus! {

/// What the shell writes in front of its path.
pub const MARKER: &'static str = "__TESSERA_PATH__";

/// What stands behind the last occurrence of a text, or everything where it
/// does not occur.
pub open spec fn behind(s: Seq<char>, m: Seq<char>) -> Seq<char> {
    match pick::last(s.len() as int + 1, |i: int| scan::occurs_at(s, m, i)) {
        Some(i) => s.skip(i + m.len()),
        None => s,
    }
}

/// The path that the shell wrote, if it wrote one.
pub open spec fn written_path(output: Seq<char>) -> Option<Seq<char>> {
    let p = scan::trim(behind(output, MARKER@));
    if p.len() == 0 {
        None
    } else {
        Some(p)
    }
}

fn rest_behind(s: &str, m: &str) -> (r: String)
    ensures
        r@ == behind(s@, m@),
{
    let sv: Vec<char> = chars_of(s);
    let mv: Vec<char> = chars_of(m);
    let n: usize = sv.len();
    let ghost q = |i: int| scan::occurs_at(s@, m@, i);
    let ghost top = s@.len() + 1;
    let mut i: usize = n;
    proof {
        assert(pick::last(top as int, q) == if q(n as int) {
            Some(n as int)
        } else {
            pick::last(n as int, q)
        });
    }
    let mut going: bool = true;
    while going
        invariant
            sv@ == s@,
            mv@ == m@,
            n == s@.len(),
            i <= n,
            top == n + 1,
            q == (|i: int| scan::occurs_at(s@, m@, i)),
            going ==> pick::last(top as int, q) == pick::last(i + 1, q),
            !going ==> pick::last(top as int, q) is None,
        decreases i, (if going { 1int } else { 0int }),
    {
        if stands_at(&sv, &mv, i) {
            proof {
                assert(q(i as int));
            }
            return cut(s, i + mv.len(), n);
        }
        proof {
            assert(!q(i as int));
            assert(pick::last(0, q) is None);
        }
        if i == 0 {
            going = false;
        } else {
            i = i - 1;
        }
    }
    s.to_owned()
}

/// Read the path that the shell wrote.
pub fn read_path(output: &str) -> (r: Option<String>)
    ensures
        text::opt(r) == written_path(output@),
{
    let p: String = trimmed(rest_behind(output, MARKER).as_str());
    if p.as_str().unicode_len() == 0 {
        None
    } else {
        Some(p)
    }
}

/// The places with one more, unless it is empty or there already.
pub open spec fn with_place(s: Seq<Seq<char>>, p: Seq<char>) -> Seq<Seq<char>> {
    if p.len() > 0 && !s.contains(p) {
        s.push(p)
    } else {
        s
    }
}

/// The places with the first `n` of more.
pub open spec fn with_places(s: Seq<Seq<char>>, more: Seq<Seq<char>>, n: int) -> Seq<Seq<char>>
    decreases n,
{
    if n <= 0 {
        s
    } else {
        with_place(with_places(s, more, n - 1), more[n - 1])
    }
}

/// The places of a path, added.
pub open spec fn with_path(s: Seq<Seq<char>>, path: Seq<char>) -> Seq<Seq<char>> {
    let p = split::split(path, ':');
    with_places(s, p, p.len() as int)
}

/// The places to look for commands in: those of the shell first, then those
/// there are, then the usual ones.
pub open spec fn places(
    from_shell: Option<Seq<char>>,
    current: Seq<char>,
    home: Seq<char>,
) -> Seq<Seq<char>> {
    let a = match from_shell {
        Some(p) => with_path(Seq::empty(), p),
        None => Seq::empty(),
    };
    let b = with_path(a, current);
    let c = with_place(with_place(with_place(b, "/opt/homebrew/bin"@), "/usr/local/bin"@), "/snap/bin"@);
    with_place(with_place(c, home + "/.local/bin"@), home + "/google-cloud-sdk/bin"@)
}

fn push(v: &mut Vec<String>, p: &str)
    ensures
        text::strs(final(v)@) == with_place(text::strs(old(v)@), p@),
{
    if p.unicode_len() > 0 && !listed(v, p) {
        say(v, p.to_owned());
    }
}

fn push_path(v: &mut Vec<String>, path: &str)
    ensures
        text::strs(final(v)@) == with_path(text::strs(old(v)@), path@),
{
    let ghost was = text::strs(v@);
    let p: Vec<String> = parts(path, ':');
    let ghost s = text::strs(p@);
    let mut i: usize = 0;
    while i < p.len()
        invariant
            i <= p@.len(),
            s == text::strs(p@),
            text::strs(v@) == with_places(was, s, i as int),
        decreases p@.len() - i,
    {
        proof {
            assert(s[i as int] == p@[i as int]@);
        }
        push(v, p[i].as_str());
        i = i + 1;
    }
}

/// The path to use.
pub fn merged_path(from_shell: &Option<String>, current: &str, home: &str) -> (r: String)
    ensures
        r@ == split::join(places(text::opt(*from_shell), current@, home@), ":"@),
{
    let mut v: Vec<String> = no_lines();
    match from_shell {
        Some(p) => push_path(&mut v, p.as_str()),
        None => {},
    }
    push_path(&mut v, current);
    push(&mut v, "/opt/homebrew/bin");
    push(&mut v, "/usr/local/bin");
    push(&mut v, "/snap/bin");
    push(&mut v, cat2(home, "/.local/bin").as_str());
    push(&mut v, cat2(home, "/google-cloud-sdk/bin").as_str());
    joined(&v, ":")
}

proof fn lemma_place(s: Seq<Seq<char>>, p: Seq<char>)
    requires
        s.no_duplicates(),
    ensures
        with_place(s, p).no_duplicates(),
        with_place(s, p).len() >= s.len(),
        with_place(s, p).take(s.len() as int) == s,
{
    let r = with_place(s, p);
    assert(r.take(s.len() as int) =~= s);
    if p.len() > 0 && !s.contains(p) {
        assert forall|i: int, j: int| 0 <= i < r.len() && 0 <= j < r.len() && i != j implies r[i]
            != r[j] by {
            if i == s.len() {
                assert(r[j] == s[j]);
                assert(s.contains(s[j]));
            } else if j == s.len() {
                assert(r[i] == s[i]);
                assert(s.contains(s[i]));
            }
        }
    }
}

proof fn lemma_places(s: Seq<Seq<char>>, more: Seq<Seq<char>>, n: int)
    requires
        s.no_duplicates(),
    ensures
        with_places(s, more, n).no_duplicates(),
        with_places(s, more, n).len() >= s.len(),
        with_places(s, more, n).take(s.len() as int) == s,
    decreases n,
{
    if n > 0 {
        lemma_places(s, more, n - 1);
        let t = with_places(s, more, n - 1);
        lemma_place(t, more[n - 1]);
        assert(with_place(t, more[n - 1]).take(t.len() as int).take(s.len() as int) =~= with_place(
            t,
            more[n - 1],
        ).take(s.len() as int));
    } else {
        assert(s.take(s.len() as int) =~= s);
    }
}

/// No place is looked at twice, and those of the shell come first.
pub proof fn places_are_distinct(from_shell: Option<Seq<char>>, current: Seq<char>, home: Seq<char>)
    ensures
        places(from_shell, current, home).no_duplicates(),
        from_shell matches Some(p) ==> {
            let a = with_path(Seq::empty(), p);
            places(from_shell, current, home).len() >= a.len() && places(
                from_shell,
                current,
                home,
            ).take(a.len() as int) == a
        },
{
    let e = Seq::<Seq<char>>::empty();
    let a = match from_shell {
        Some(p) => with_path(e, p),
        None => e,
    };
    if from_shell is Some {
        let p = split::split(from_shell->0, ':');
        lemma_places(e, p, p.len() as int);
    }
    let cp = split::split(current, ':');
    lemma_places(a, cp, cp.len() as int);
    let b = with_path(a, current);
    let c1 = with_place(b, "/opt/homebrew/bin"@);
    let c2 = with_place(c1, "/usr/local/bin"@);
    let c3 = with_place(c2, "/snap/bin"@);
    let c4 = with_place(c3, home + "/.local/bin"@);
    let c5 = with_place(c4, home + "/google-cloud-sdk/bin"@);
    lemma_place(b, "/opt/homebrew/bin"@);
    lemma_place(c1, "/usr/local/bin"@);
    lemma_place(c2, "/snap/bin"@);
    lemma_place(c3, home + "/.local/bin"@);
    lemma_place(c4, home + "/google-cloud-sdk/bin"@);
    let n = a.len() as int;
    assert(c1.take(b.len() as int).take(n) =~= c1.take(n));
    assert(c2.take(c1.len() as int).take(n) =~= c2.take(n));
    assert(c3.take(c2.len() as int).take(n) =~= c3.take(n));
    assert(c4.take(c3.len() as int).take(n) =~= c4.take(n));
    assert(c5.take(c4.len() as int).take(n) =~= c5.take(n));
}

} // verus!
