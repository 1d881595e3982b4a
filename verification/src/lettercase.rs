//! Upper and lower case.

use crate::scan::chars_of;
use vstd::prelude::*;

verus! {

/// The lower-case form of an ASCII letter; other characters stay.
pub open spec fn ascii_lower(c: char) -> char {
    if 'A' <= c <= 'Z' {
        ((c as int) + 0x20) as char
    } else {
        c
    }
}

/// A text with its ASCII letters in lower case.
pub open spec fn ascii_lowercase(s: Seq<char>) -> Seq<char> {
    s.map_values(|c: char| ascii_lower(c))
}

/// Is every character of the text ASCII?
pub open spec fn is_ascii(s: Seq<char>) -> bool {
    forall|i: int| 0 <= i < s.len() ==> (#[trigger] s[i] as int) < 0x80
}

/// The lower-case form of a text, as Unicode defines it.
pub uninterp spec fn lowercase(s: Seq<char>) -> Seq<char>;

/// Calls `str::to_lowercase`. Its result depends on the text alone and is
/// named `lowercase`. For a text of ASCII characters it is the text with each
/// letter from `A` to `Z` replaced by the same letter from `a` to `z`; how
/// other characters change is left to Unicode's tables.
#[verifier::external_body]
pub(crate) fn lower(s: &str) -> (r: String)
    ensures
        r@ == lowercase(s@),
        is_ascii(s@) ==> r@ == ascii_lowercase(s@),
{
    s.to_lowercase()
}

/// Are the texts the same when upper and lower case ASCII letters count as
/// one?
pub open spec fn same_letters(a: Seq<char>, b: Seq<char>) -> bool {
    ascii_lowercase(a) == ascii_lowercase(b)
}

fn to_lower(c: char) -> (r: char)
    ensures
        r == ascii_lower(c),
{
    if 'A' <= c && c <= 'Z' {
        let n: u8 = c as u8;
        (n + 0x20) as char
    } else {
        c
    }
}

/// Compare two texts without regard to the case of ASCII letters.
pub fn alike(a: &str, b: &str) -> (r: bool)
    ensures
        r == same_letters(a@, b@),
{
    let x: Vec<char> = chars_of(a);
    let y: Vec<char> = chars_of(b);
    let ghost p = ascii_lowercase(a@);
    let ghost q = ascii_lowercase(b@);
    if x.len() != y.len() {
        proof {
            assert(p.len() != q.len());
        }
        return false;
    }
    let mut i: usize = 0;
    while i < x.len()
        invariant
            i <= x.len(),
            x.len() == y.len(),
            x@ == a@,
            y@ == b@,
            p == ascii_lowercase(a@),
            q == ascii_lowercase(b@),
            forall|j: int| 0 <= j < i ==> p[j] == q[j],
        decreases x.len() - i,
    {
        if to_lower(x[i]) != to_lower(y[i]) {
            proof {
                assert(p[i as int] != q[i as int]);
            }
            return false;
        }
        i = i + 1;
    }
    proof {
        assert(p =~= q);
    }
    true
}

} // verus!
