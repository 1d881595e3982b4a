//! Searching, splitting and trimming text.

use vstd::prelude::*;

verus! {

/// The characters of a text, as a vector.
pub fn chars_of(s: &str) -> (r: Vec<char>)
    ensures
        r@ == s@,
{
    let mut r: Vec<char> = Vec::new();
    for c in it: s.chars()
        invariant
            it.seq() == s@,
            r@ == s@.take(it.index() as int),
    {
        proof {
            assert(s@.take(it.index() + 1) =~= s@.take(it.index() as int).push(c));
        }
        r.push(c);
    }
    proof {
        assert(s@.take(s@.len() as int) =~= s@);
    }
    r
}

/// The characters of a text from one position up to another.
pub fn cut(s: &str, from: usize, to: usize) -> (r: String)
    requires
        from <= to <= s@.len(),
    ensures
        r@ == s@.subrange(from as int, to as int),
{
    s.substring_char(from, to).to_owned()
}

/// Does `p` stand in `s` at position `i`?
pub open spec fn occurs_at(s: Seq<char>, p: Seq<char>, i: int) -> bool {
    0 <= i && i + p.len() <= s.len() && s.subrange(i, i + p.len()) == p
}

/// Does `p` stand anywhere in `s`?
pub open spec fn contains(s: Seq<char>, p: Seq<char>) -> bool {
    exists|i: int| occurs_at(s, p, i)
}

pub open spec fn starts_with(s: Seq<char>, p: Seq<char>) -> bool {
    occurs_at(s, p, 0)
}

pub open spec fn ends_with(s: Seq<char>, p: Seq<char>) -> bool {
    occurs_at(s, p, s.len() - p.len())
}

/// Does `p` stand in `s` at position `i`, on vectors of characters?
pub fn stands_at(s: &Vec<char>, p: &Vec<char>, i: usize) -> (r: bool)
    ensures
        r == occurs_at(s@, p@, i as int),
{
    if i > s.len() || p.len() > s.len() - i {
        return false;
    }
    let mut k: usize = 0;
    while k < p.len()
        invariant
            k <= p.len(),
            i + p.len() <= s.len(),
            forall|j: int| 0 <= j < k ==> s@[i + j] == p@[j],
        decreases p.len() - k,
    {
        if s[i + k] != p[k] {
            proof {
                assert(s@.subrange(i as int, i + p@.len())[k as int] != p@[k as int]);
            }
            return false;
        }
        k = k + 1;
    }
    proof {
        assert(s@.subrange(i as int, i + p@.len()) =~= p@);
    }
    true
}

/// The first position at or after `from` where `p` stands in `s`.
pub fn find_from(s: &Vec<char>, p: &Vec<char>, from: usize) -> (r: Option<usize>)
    ensures
        match r {
            Some(i) => from <= i && occurs_at(s@, p@, i as int) && (forall|j: int|
                from <= j < i ==> !occurs_at(s@, p@, j)),
            None => forall|j: int| from <= j ==> !occurs_at(s@, p@, j),
        },
{
    let mut i: usize = from;
    while i <= s.len() && p.len() <= s.len() - i
        invariant
            from <= i,
            forall|j: int| from <= j < i ==> !occurs_at(s@, p@, j),
        decreases s.len() + 1 - i,
    {
        if stands_at(s, p, i) {
            return Some(i);
        }
        if i == s.len() {
            return None;
        }
        i = i + 1;
    }
    None
}

/// Does `p` stand anywhere in `s`?
pub fn has(s: &str, p: &str) -> (r: bool)
    ensures
        r == contains(s@, p@),
{
    let sv: Vec<char> = chars_of(s);
    let pv: Vec<char> = chars_of(p);
    match find_from(&sv, &pv, 0) {
        Some(i) => true,
        None => {
            proof {
                assert forall|j: int| !occurs_at(s@, p@, j) by {
                    if 0 <= j {
                    }
                }
            }
            false
        },
    }
}

/// Does `s` begin with `p`?
pub fn begins(s: &str, p: &str) -> (r: bool)
    ensures
        r == starts_with(s@, p@),
{
    let sv: Vec<char> = chars_of(s);
    let pv: Vec<char> = chars_of(p);
    stands_at(&sv, &pv, 0)
}

/// Does `s` end with `p`?
pub fn ends(s: &str, p: &str) -> (r: bool)
    ensures
        r == ends_with(s@, p@),
{
    let sv: Vec<char> = chars_of(s);
    let pv: Vec<char> = chars_of(p);
    if pv.len() > sv.len() {
        return false;
    }
    stands_at(&sv, &pv, sv.len() - pv.len())
}

/// The text with every copy of `p` at its end taken off.
pub open spec fn strip_ends(s: Seq<char>, p: Seq<char>) -> Seq<char>
    decreases s.len(),
{
    if p.len() > 0 && ends_with(s, p) {
        strip_ends(s.take(s.len() - p.len()), p)
    } else {
        s
    }
}

/// The text with every copy of `p` at its start taken off.
pub open spec fn strip_starts(s: Seq<char>, p: Seq<char>) -> Seq<char>
    decreases s.len(),
{
    if p.len() > 0 && starts_with(s, p) {
        strip_starts(s.skip(p.len() as int), p)
    } else {
        s
    }
}

/// Take every copy of `p` off the end of `s`.
pub fn without_ends(s: &str, p: &str) -> (r: String)
    ensures
        r@ == strip_ends(s@, p@),
{
    let sv: Vec<char> = chars_of(s);
    let pv: Vec<char> = chars_of(p);
    let mut n: usize = sv.len();
    proof {
        assert(s@.take(n as int) =~= s@);
    }
    if pv.len() > 0 {
        while pv.len() <= n && stands_at(&sv, &pv, n - pv.len())
            invariant
                n <= sv.len(),
                0 < pv.len(),
                sv@ == s@,
                pv@ == p@,
                strip_ends(s@, p@) == strip_ends(s@.take(n as int), p@),
            decreases n,
        {
            proof {
                let t = s@.take(n as int);
                let m = n - pv@.len();
                assert(t.subrange(m, m + p@.len()) =~= s@.subrange(m, m + p@.len()));
                assert(t.take(m) =~= s@.take(m));
            }
            n = n - pv.len();
        }
        proof {
            let t = s@.take(n as int);
            if ends_with(t, p@) {
                let m = n - pv@.len();
                assert(t.subrange(m, m + p@.len()) =~= s@.subrange(m, m + p@.len()));
            }
        }
    }
    proof {
        assert(s@.take(n as int) =~= s@.subrange(0, n as int));
    }
    cut(s, 0, n)
}

/// Take every copy of `p` off the start of `s`.
pub fn without_starts(s: &str, p: &str) -> (r: String)
    ensures
        r@ == strip_starts(s@, p@),
{
    let sv: Vec<char> = chars_of(s);
    let pv: Vec<char> = chars_of(p);
    let mut n: usize = 0;
    proof {
        assert(s@.skip(0) =~= s@);
    }
    if pv.len() > 0 {
        while stands_at(&sv, &pv, n)
            invariant
                n <= sv.len(),
                0 < pv.len(),
                sv@ == s@,
                pv@ == p@,
                strip_starts(s@, p@) == strip_starts(s@.skip(n as int), p@),
            decreases sv.len() - n,
        {
            proof {
                let t = s@.skip(n as int);
                assert(t.subrange(0, p@.len() as int) =~= s@.subrange(n as int, n + p@.len()));
                assert(t.skip(p@.len() as int) =~= s@.skip(n + p@.len()));
            }
            n = n + pv.len();
        }
        proof {
            let t = s@.skip(n as int);
            if starts_with(t, p@) {
                assert(t.subrange(0, p@.len() as int) =~= s@.subrange(n as int, n + p@.len()));
            }
        }
    }
    proof {
        assert(s@.skip(n as int) =~= s@.subrange(n as int, s@.len() as int));
    }
    cut(s, n, sv.len())
}

/// The characters with Unicode's White_Space property.
pub open spec fn is_space(c: char) -> bool {
    let n = c as u32;
    ||| 0x09 <= n <= 0x0d
    ||| n == 0x20
    ||| n == 0x85
    ||| n == 0xa0
    ||| n == 0x1680
    ||| 0x2000 <= n <= 0x200a
    ||| n == 0x2028
    ||| n == 0x2029
    ||| n == 0x202f
    ||| n == 0x205f
    ||| n == 0x3000
}

/// Does the character have Unicode's White_Space property?
pub fn space(c: char) -> (r: bool)
    ensures
        r == is_space(c),
{
    let n: u32 = c as u32;
    (0x09 <= n && n <= 0x0d) || n == 0x20 || n == 0x85 || n == 0xa0 || n == 0x1680 || (0x2000 <= n
        && n <= 0x200a) || n == 0x2028 || n == 0x2029 || n == 0x202f || n == 0x205f || n == 0x3000
}

pub open spec fn trim_start(s: Seq<char>) -> Seq<char>
    decreases s.len(),
{
    if s.len() > 0 && is_space(s[0]) {
        trim_start(s.skip(1))
    } else {
        s
    }
}

pub open spec fn trim_end(s: Seq<char>) -> Seq<char>
    decreases s.len(),
{
    if s.len() > 0 && is_space(s.last()) {
        trim_end(s.drop_last())
    } else {
        s
    }
}

/// The text without white space at either end.
pub open spec fn trim(s: Seq<char>) -> Seq<char> {
    trim_end(trim_start(s))
}

/// Take the white space off both ends.
pub fn trimmed(s: &str) -> (r: String)
    ensures
        r@ == trim(s@),
{
    let v: Vec<char> = chars_of(s);
    let mut a: usize = 0;
    proof {
        assert(s@.skip(0) =~= s@);
    }
    while a < v.len() && space(v[a])
        invariant
            a <= v.len(),
            v@ == s@,
            trim_start(s@) == trim_start(s@.skip(a as int)),
        decreases v.len() - a,
    {
        proof {
            assert(s@.skip(a as int).skip(1) =~= s@.skip(a + 1));
        }
        a = a + 1;
    }
    let mut b: usize = v.len();
    proof {
        assert(trim_start(s@) == s@.skip(a as int));
        assert(s@.skip(a as int) =~= s@.subrange(a as int, b as int));
    }
    while a < b && space(v[b - 1])
        invariant
            a <= b <= v.len(),
            v@ == s@,
            trim(s@) == trim_end(s@.subrange(a as int, b as int)),
        decreases b - a,
    {
        proof {
            assert(s@.subrange(a as int, b as int).drop_last() =~= s@.subrange(a as int, b - 1));
        }
        b = b - 1;
    }
    cut(s, a, b)
}

} // verus!
