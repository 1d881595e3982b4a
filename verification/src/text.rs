//! Text as the rules read and write it.
//!
//! A `String` is seen as its sequence of characters and a list of strings as a
//! sequence of such sequences. Every function here has a specification twin of
//! the same meaning over those sequences.

use vstd::prelude::*;

verus! {

/// The texts in a list of strings.
pub open spec fn strs(v: Seq<String>) -> Seq<Seq<char>> {
    v.map_values(|s: String| s@)
}

/// The text behind an optional string.
pub open spec fn opt(o: Option<String>) -> Option<Seq<char>> {
    match o {
        Some(s) => Some(s@),
        None => None,
    }
}

/// The text behind an optional string, or nothing.
pub open spec fn or_empty(o: Option<String>) -> Seq<char> {
    match o {
        Some(s) => s@,
        None => Seq::empty(),
    }
}

/// A copy of an optional string.
pub fn opt_copy(o: &Option<String>) -> (r: Option<String>)
    ensures
        r == *o,
{
    match o {
        Some(s) => Some(s.clone()),
        None => None,
    }
}

/// A copy of an optional string's text, or the empty string.
pub fn copy_or_empty(o: &Option<String>) -> (r: String)
    ensures
        r@ == or_empty(*o),
{
    match o {
        Some(s) => s.clone(),
        None => String::new(),
    }
}

/// A copy of a list of strings.
pub fn copy_list(v: &Vec<String>) -> (r: Vec<String>)
    ensures
        r@ == v@,
{
    let mut r: Vec<String> = Vec::new();
    let mut i: usize = 0;
    while i < v.len()
        invariant
            i <= v.len(),
            r@ == v@.take(i as int),
        decreases v.len() - i,
    {
        r.push(v[i].clone());
        proof {
            assert(v@.take(i + 1) =~= v@.take(i as int).push(v@[i as int]));
        }
        i = i + 1;
    }
    proof {
        assert(v@.take(v@.len() as int) =~= v@);
    }
    r
}

/// Are two texts the same?
pub fn same(a: &str, b: &str) -> (r: bool)
    ensures
        r == (a@ == b@),
{
    let x: String = a.to_owned();
    let y: String = b.to_owned();
    x == y
}

/// Is the optional string present with exactly this text?
pub fn opt_is(o: &Option<String>, b: &str) -> (r: bool)
    ensures
        r == (opt(*o) == Some(b@)),
{
    match o {
        Some(s) => same(s.as_str(), b),
        None => false,
    }
}

/// Are two optional strings both absent, or present with the same text?
pub fn opt_same(a: &Option<String>, b: &Option<String>) -> (r: bool)
    ensures
        r == (opt(*a) == opt(*b)),
{
    match (a, b) {
        (Some(x), Some(y)) => *x == *y,
        (None, None) => true,
        _ => false,
    }
}

/// Is this text one of the list?
pub fn listed(v: &Vec<String>, t: &str) -> (r: bool)
    ensures
        r == strs(v@).contains(t@),
{
    let mut i: usize = 0;
    while i < v.len()
        invariant
            i <= v.len(),
            forall|j: int| 0 <= j < i ==> strs(v@)[j] != t@,
        decreases v.len() - i,
    {
        if same(v[i].as_str(), t) {
            proof {
                assert(strs(v@)[i as int] == t@);
            }
            return true;
        }
        i = i + 1;
    }
    false
}

/// Add a string to the end of a list.
pub fn say(v: &mut Vec<String>, s: String)
    ensures
        strs(final(v)@) == strs(old(v)@).push(s@),
        strs(final(v)@) == strs(old(v)@) + seq![s@],
{
    let ghost before = v@;
    v.push(s);
    proof {
        assert(strs(v@) =~= strs(before).push(s@));
        assert(strs(v@) =~= strs(before) + seq![s@]);
    }
}

/// Add one list to the end of another.
pub fn say_all(v: &mut Vec<String>, more: Vec<String>)
    ensures
        strs(final(v)@) == strs(old(v)@) + strs(more@),
{
    let ghost before = v@;
    let mut m = more;
    v.append(&mut m);
    proof {
        assert(strs(v@) =~= strs(before) + strs(more@));
    }
}

/// The list with nothing in it.
pub fn no_lines() -> (r: Vec<String>)
    ensures
        strs(r@) == Seq::<Seq<char>>::empty(),
{
    let r: Vec<String> = Vec::new();
    proof {
        assert(strs(r@) =~= Seq::<Seq<char>>::empty());
    }
    r
}

/// The list of one string.
pub fn lines1(a: String) -> (r: Vec<String>)
    ensures
        strs(r@) == seq![a@],
{
    let mut r: Vec<String> = Vec::new();
    r.push(a);
    proof {
        assert(strs(r@) =~= seq![a@]);
    }
    r
}

/// The list of two strings.
pub fn lines2(a: String, b: String) -> (r: Vec<String>)
    ensures
        strs(r@) == seq![a@, b@],
{
    let mut r: Vec<String> = Vec::new();
    r.push(a);
    r.push(b);
    proof {
        assert(strs(r@) =~= seq![a@, b@]);
    }
    r
}

/// The list of three strings.
pub fn lines3(a: String, b: String, c: String) -> (r: Vec<String>)
    ensures
        strs(r@) == seq![a@, b@, c@],
{
    let mut r: Vec<String> = Vec::new();
    r.push(a);
    r.push(b);
    r.push(c);
    proof {
        assert(strs(r@) =~= seq![a@, b@, c@]);
    }
    r
}

/// Two texts, one after the other.
pub fn cat2(a: &str, b: &str) -> (r: String)
    ensures
        r@ == a@ + b@,
{
    let mut r: String = a.to_owned();
    r.append(b);
    r
}

/// Three texts, one after the other.
pub fn cat3(a: &str, b: &str, c: &str) -> (r: String)
    ensures
        r@ == a@ + b@ + c@,
{
    let mut r: String = a.to_owned();
    r.append(b);
    r.append(c);
    r
}

/// Four texts, one after the other.
pub fn cat4(a: &str, b: &str, c: &str, d: &str) -> (r: String)
    ensures
        r@ == a@ + b@ + c@ + d@,
{
    let mut r: String = a.to_owned();
    r.append(b);
    r.append(c);
    r.append(d);
    r
}

/// Five texts, one after the other.
pub fn cat5(a: &str, b: &str, c: &str, d: &str, e: &str) -> (r: String)
    ensures
        r@ == a@ + b@ + c@ + d@ + e@,
{
    let mut r: String = a.to_owned();
    r.append(b);
    r.append(c);
    r.append(d);
    r.append(e);
    r
}

/// Six texts, one after the other.
pub fn cat6(a: &str, b: &str, c: &str, d: &str, e: &str, f: &str) -> (r: String)
    ensures
        r@ == a@ + b@ + c@ + d@ + e@ + f@,
{
    let mut r: String = a.to_owned();
    r.append(b);
    r.append(c);
    r.append(d);
    r.append(e);
    r.append(f);
    r
}

/// Seven texts, one after the other.
pub fn cat7(a: &str, b: &str, c: &str, d: &str, e: &str, f: &str, g: &str) -> (r: String)
    ensures
        r@ == a@ + b@ + c@ + d@ + e@ + f@ + g@,
{
    let mut r: String = a.to_owned();
    r.append(b);
    r.append(c);
    r.append(d);
    r.append(e);
    r.append(f);
    r.append(g);
    r
}

/// Eight texts, one after the other.
pub fn cat8(a: &str, b: &str, c: &str, d: &str, e: &str, f: &str, g: &str, h: &str) -> (r: String)
    ensures
        r@ == a@ + b@ + c@ + d@ + e@ + f@ + g@ + h@,
{
    let mut r: String = a.to_owned();
    r.append(b);
    r.append(c);
    r.append(d);
    r.append(e);
    r.append(f);
    r.append(g);
    r.append(h);
    r
}

/// Nine texts, one after the other.
pub fn cat9(
    a: &str,
    b: &str,
    c: &str,
    d: &str,
    e: &str,
    f: &str,
    g: &str,
    h: &str,
    i: &str,
) -> (r: String)
    ensures
        r@ == a@ + b@ + c@ + d@ + e@ + f@ + g@ + h@ + i@,
{
    let mut r: String = a.to_owned();
    r.append(b);
    r.append(c);
    r.append(d);
    r.append(e);
    r.append(f);
    r.append(g);
    r.append(h);
    r.append(i);
    r
}

/// Eleven texts, one after the other.
pub fn cat11(
    a: &str,
    b: &str,
    c: &str,
    d: &str,
    e: &str,
    f: &str,
    g: &str,
    h: &str,
    i: &str,
    j: &str,
    k: &str,
) -> (r: String)
    ensures
        r@ == a@ + b@ + c@ + d@ + e@ + f@ + g@ + h@ + i@ + j@ + k@,
{
    let mut r: String = a.to_owned();
    r.append(b);
    r.append(c);
    r.append(d);
    r.append(e);
    r.append(f);
    r.append(g);
    r.append(h);
    r.append(i);
    r.append(j);
    r.append(k);
    r
}

/// The first `n` of a list, or all of it when it is shorter.
pub open spec fn at_most<A>(s: Seq<A>, n: int) -> Seq<A> {
    if s.len() <= n {
        s
    } else {
        s.take(n)
    }
}

/// Keep the first `n` of a list.
pub fn keep(v: &mut Vec<String>, n: usize)
    ensures
        strs(final(v)@) == at_most(strs(old(v)@), n as int),
{
    let ghost was = v@;
    if v.len() > n {
        v.truncate(n);
        proof {
            assert(strs(v@) =~= strs(was).take(n as int));
        }
    }
}

} // verus!
