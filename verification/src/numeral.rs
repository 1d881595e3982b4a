//! Whole numbers written in decimal.

use crate::scan::chars_of;
use vstd::prelude::*;

verus! {

/// The digit for a number below ten.
pub open spec fn digit(d: nat) -> char {
    (0x30 + d) as char
}

/// The digits of a number, without leading zeros.
pub open spec fn digits(n: nat) -> Seq<char>
    decreases n,
{
    if n < 10 {
        seq![digit(n)]
    } else {
        digits(n / 10).push(digit(n % 10))
    }
}

/// A number in decimal.
pub open spec fn dec(n: int) -> Seq<char> {
    if n < 0 {
        "-"@ + digits((-n) as nat)
    } else {
        digits(n as nat)
    }
}

fn push_digit(s: &mut String, d: u64)
    requires
        d < 10,
    ensures
        final(s)@ == old(s)@.push(digit(d as nat)),
{
    proof {
        reveal_strlit("0");
        reveal_strlit("1");
        reveal_strlit("2");
        reveal_strlit("3");
        reveal_strlit("4");
        reveal_strlit("5");
        reveal_strlit("6");
        reveal_strlit("7");
        reveal_strlit("8");
        reveal_strlit("9");
    }
    let t: &str = if d == 0 {
        "0"
    } else if d == 1 {
        "1"
    } else if d == 2 {
        "2"
    } else if d == 3 {
        "3"
    } else if d == 4 {
        "4"
    } else if d == 5 {
        "5"
    } else if d == 6 {
        "6"
    } else if d == 7 {
        "7"
    } else if d == 8 {
        "8"
    } else {
        "9"
    };
    let ghost before = s@;
    s.append(t);
    proof {
        assert(t@ =~= seq![digit(d as nat)]);
        assert(s@ =~= before.push(digit(d as nat)));
    }
}

/// The digits of a number.
pub fn dec_u64(n: u64) -> (r: String)
    ensures
        r@ == dec(n as int),
    decreases n,
{
    let mut r: String = if n < 10 {
        String::new()
    } else {
        dec_u64(n / 10)
    };
    push_digit(&mut r, n % 10);
    proof {
        assert(r@ =~= digits(n as nat));
    }
    r
}

/// A count in decimal.
pub fn dec_usize(n: usize) -> (r: String)
    ensures
        r@ == dec(n as int),
{
    dec_u64(n as u64)
}

/// A signed number in decimal.
pub fn dec_i64(n: i64) -> (r: String)
    ensures
        r@ == dec(n as int),
{
    if n < 0 {
        let m: u64 = (-(n as i128)) as u64;
        let mut r: String = "-".to_owned();
        let d: String = dec_u64(m);
        r.append(d.as_str());
        r
    } else {
        dec_u64(n as u64)
    }
}

/// A signed number in decimal.
pub fn dec_i32(n: i32) -> (r: String)
    ensures
        r@ == dec(n as int),
{
    dec_i64(n as i64)
}

/// An unsigned number in decimal.
pub fn dec_u32(n: u32) -> (r: String)
    ensures
        r@ == dec(n as int),
{
    dec_u64(n as u64)
}

/// The nearest number that 64 bits hold.
pub open spec fn clamp64(n: int) -> int {
    if n < i64::MIN {
        i64::MIN as int
    } else if n > i64::MAX {
        i64::MAX as int
    } else {
        n
    }
}

/// Bring a number into the range of 64 bits.
pub fn clamp_i64(n: i128) -> (r: i64)
    ensures
        r == clamp64(n as int),
{
    if n < i64::MIN as i128 {
        i64::MIN
    } else if n > i64::MAX as i128 {
        i64::MAX
    } else {
        n as i64
    }
}

/// Add two numbers; a sum that is too large or too small stops at the bound.
pub fn plus(a: i64, b: i64) -> (r: i64)
    ensures
        r == clamp64(a + b),
{
    clamp_i64(a as i128 + b as i128)
}

/// Is the character one of the ten decimal digits?
pub open spec fn is_digit(c: char) -> bool {
    '0' <= c <= '9'
}

/// The value of a decimal digit.
pub open spec fn digit_value(c: char) -> nat {
    (c as int - 0x30) as nat
}

pub open spec fn all_digits(s: Seq<char>) -> bool {
    forall|i: int| 0 <= i < s.len() ==> is_digit(#[trigger] s[i])
}

/// The number that a run of digits stands for.
pub open spec fn value(s: Seq<char>) -> nat
    decreases s.len(),
{
    if s.len() == 0 {
        0
    } else {
        value(s.drop_last()) * 10 + digit_value(s.last())
    }
}

/// The 32-bit number that a text stands for: an optional sign, then digits.
pub open spec fn parse_i32(s: Seq<char>) -> Option<int> {
    let signed = s.len() > 0 && (s[0] == '-' || s[0] == '+');
    let body = if signed {
        s.skip(1)
    } else {
        s
    };
    let v: int = if s.len() > 0 && s[0] == '-' {
        -(value(body) as int)
    } else {
        value(body) as int
    };
    if body.len() > 0 && all_digits(body) && i32::MIN <= v <= i32::MAX {
        Some(v)
    } else {
        None
    }
}

/// More digits never stand for a smaller number.
pub proof fn lemma_value_grows(s: Seq<char>, i: int)
    requires
        0 <= i <= s.len(),
    ensures
        value(s.take(i)) <= value(s),
    decreases s.len() - i,
{
    if i == s.len() {
        assert(s.take(i) =~= s);
    } else {
        lemma_value_grows(s, i + 1);
        assert(s.take(i + 1).drop_last() =~= s.take(i));
    }
}

/// Read a 32-bit number.
pub fn read_i32(s: &str) -> (r: Option<i32>)
    ensures
        match r {
            Some(n) => parse_i32(s@) == Some(n as int),
            None => parse_i32(s@) is None,
        },
{
    let v: Vec<char> = chars_of(s);
    let neg: bool = v.len() > 0 && v[0] == '-';
    let signed: bool = v.len() > 0 && (v[0] == '-' || v[0] == '+');
    let from: usize = if signed {
        1
    } else {
        0
    };
    let ghost body = if signed {
        s@.skip(1)
    } else {
        s@
    };
    if v.len() == from {
        return None;
    }
    let mut acc: i64 = 0;
    let mut i: usize = from;
    proof {
        assert(body.take(0).len() == 0);
    }
    while i < v.len()
        invariant
            from <= i <= v.len(),
            v@ == s@,
            from == (if signed { 1int } else { 0int }),
            signed == (s@.len() > 0 && (s@[0] == '-' || s@[0] == '+')),
            neg == (s@.len() > 0 && s@[0] == '-'),
            body == (if signed {
                s@.skip(1)
            } else {
                s@
            }),
            body.len() == v.len() - from,
            0 <= acc <= 4_000_000_000,
            acc == value(body.take(i - from)),
            forall|j: int| 0 <= j < i - from ==> is_digit(#[trigger] body[j]),
        decreases v.len() - i,
    {
        let c: char = v[i];
        proof {
            assert(body[i - from] == c);
        }
        if !('0' <= c && c <= '9') {
            return None;
        }
        let d: i64 = (c as u32 - 0x30) as i64;
        proof {
            assert(body.take(i - from + 1).drop_last() =~= body.take(i - from));
            lemma_value_grows(body, i - from + 1);
        }
        acc = acc * 10 + d;
        if acc > 4_000_000_000 {
            return None;
        }
        i = i + 1;
    }
    proof {
        assert(body.take(i - from) =~= body);
    }
    if neg {
        if acc > 2_147_483_648 {
            None
        } else {
            Some((-acc) as i32)
        }
    } else if acc > 2_147_483_647 {
        None
    } else {
        Some(acc as i32)
    }
}

/// The digits written for a number stand for that number again.
pub proof fn lemma_digits_value(n: nat)
    ensures
        all_digits(digits(n)),
        value(digits(n)) == n,
        digits(n).len() > 0,
    decreases n,
{
    if n < 10 {
        assert(digits(n).drop_last() =~= Seq::<char>::empty());
        assert(value(Seq::<char>::empty()) == 0);
        assert(digits(n).last() == digit(n));
    } else {
        lemma_digits_value(n / 10);
        assert(digits(n).drop_last() =~= digits(n / 10));
    }
}

/// Reading back a 32-bit number gives the number that was written.
pub proof fn written_numbers_read_back(n: int)
    requires
        i32::MIN <= n <= i32::MAX,
    ensures
        parse_i32(dec(n)) == Some(n),
{
    reveal_strlit("-");
    if n < 0 {
        lemma_digits_value((-n) as nat);
        assert(dec(n).skip(1) =~= digits((-n) as nat));
        assert(dec(n)[0] == '-');
    } else {
        lemma_digits_value(n as nat);
        assert(is_digit(dec(n)[0]));
    }
}

} // verus!
