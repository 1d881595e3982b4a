//! Reading decimal numbers, and computing with them in double precision.

use crate::decimal;
use crate::decimal::{append_digit, nearest_long, nearest_short};
use crate::lettercase;
use crate::lettercase::alike;
use crate::numeral;
use crate::pick;
use crate::quantity::{P52, P53};
use crate::scan::{chars_of, cut};
use vstd::prelude::*;

verus! {

/// What a text says as a number.
pub enum Reading {
    Nan,
    /// Infinite; negative or not.
    Infinite(bool),
    /// Negative or not, the digits, and the power of ten they are taken by.
    Finite(bool, Seq<char>, int),
}

/// The digits of a number and how many of them stand behind the point: digits
/// with at most one point among them, and at least one digit.
pub open spec fn mantissa(s: Seq<char>) -> Option<(Seq<char>, int)> {
    let dot = pick::first(s.len() as int, |i: int| s[i] == '.');
    let before = match dot {
        Some(i) => s.take(i),
        None => s,
    };
    let behind = match dot {
        Some(i) => s.skip(i + 1),
        None => Seq::empty(),
    };
    if numeral::all_digits(before) && numeral::all_digits(behind) && before.len() + behind.len()
        > 0 {
        Some((before + behind, behind.len() as int))
    } else {
        None
    }
}

/// An exponent: an optional sign, then digits.
pub open spec fn exponent(s: Seq<char>) -> Option<int> {
    let signed = s.len() > 0 && (s[0] == '-' || s[0] == '+');
    let body = if signed {
        s.skip(1)
    } else {
        s
    };
    if body.len() > 0 && numeral::all_digits(body) {
        Some(
            if s[0] == '-' {
                -(numeral::value(body) as int)
            } else {
                numeral::value(body) as int
            },
        )
    } else {
        None
    }
}

/// A number without a sign: its digits, and the power of ten.
pub open spec fn unsigned(s: Seq<char>) -> Option<(Seq<char>, int)> {
    let mark = pick::first(s.len() as int, |i: int| s[i] == 'e' || s[i] == 'E');
    match mark {
        Some(i) => match (mantissa(s.take(i)), exponent(s.skip(i + 1))) {
            (Some(m), Some(x)) => Some((m.0, x - m.1)),
            _ => None,
        },
        None => match mantissa(s) {
            Some(m) => Some((m.0, -m.1)),
            None => None,
        },
    }
}

/// A decimal number as text: an optional sign, then digits with an optional
/// point and an optional exponent, or a word for infinity or for no number.
pub open spec fn reading(s: Seq<char>) -> Option<Reading> {
    let signed = s.len() > 0 && (s[0] == '-' || s[0] == '+');
    let negative = s.len() > 0 && s[0] == '-';
    let body = if signed {
        s.skip(1)
    } else {
        s
    };
    if lettercase::same_letters(body, "inf"@) || lettercase::same_letters(body, "infinity"@) {
        Some(Reading::Infinite(negative))
    } else if lettercase::same_letters(body, "nan"@) {
        Some(Reading::Nan)
    } else {
        match unsigned(body) {
            Some(u) => Some(Reading::Finite(negative, u.0, u.1)),
            None => None,
        }
    }
}

/// The integer nearest to `m` times two to the power of `e`; halfway between
/// two, the larger one.
pub open spec fn round_away(m: nat, e: int) -> nat {
    if e >= 0 {
        m * decimal::pow2(e as nat)
    } else {
        (2 * m + decimal::pow2((-e) as nat)) / (2 * decimal::pow2((-e) as nat))
    }
}

/// The numerator of digits taken by a power of ten.
pub open spec fn above(digits: Seq<char>, exp: int) -> nat {
    numeral::value(digits) * decimal::pow10(
        if exp >= 0 {
            exp as nat
        } else {
            0
        },
    )
}

/// The denominator of digits taken by a power of ten.
pub open spec fn below(exp: int) -> nat {
    decimal::pow10(
        if exp >= 0 {
            0
        } else {
            (-exp) as nat
        },
    )
}

/// A fraction in double precision, then times `num / den` in double precision,
/// then to the nearest integer.
pub open spec fn computed(p: nat, q: nat, num: nat, den: nat) -> nat {
    let a = decimal::near(p, q);
    let b = decimal::near(a.0 * num, den);
    round_away(b.0, a.1 + b.1)
}

/// A reading times `num / den`, as the nearest 64-bit integer. What is too
/// large or too small stops at the bound; no number is zero.
pub open spec fn scaled(r: Reading, num: nat, den: nat) -> int {
    match r {
        Reading::Nan => 0,
        Reading::Infinite(negative) => if negative {
            i64::MIN as int
        } else {
            i64::MAX as int
        },
        Reading::Finite(negative, digits, exp) => if numeral::value(digits) == 0 {
            0
        } else {
            let n = computed(above(digits, exp), below(exp), num, den) as int;
            numeral::clamp64(
                if negative {
                    -n
                } else {
                    n
                },
            )
        },
    }
}

/// The bound at which exponents stop being counted.
pub const FAR: i128 = 1_000_000_000_000_000_000_000_000_000_000;

/// An exponent up to the bound.
pub open spec fn capped(x: int) -> int {
    if x > FAR {
        FAR as int
    } else if x < -FAR {
        -FAR as int
    } else {
        x
    }
}

fn read_exponent(v: &Vec<char>, from: usize) -> (r: Option<i128>)
    requires
        from <= v@.len(),
    ensures
        match r {
            Some(x) => exponent(v@.skip(from as int)) matches Some(y) && x == capped(y),
            None => exponent(v@.skip(from as int)) is None,
        },
{
    let ghost s = v@.skip(from as int);
    let signed: bool = from < v.len() && (v[from] == '-' || v[from] == '+');
    let negative: bool = from < v.len() && v[from] == '-';
    let start: usize = if signed {
        from + 1
    } else {
        from
    };
    let ghost body = v@.skip(start as int);
    proof {
        if signed {
            assert(s.skip(1) =~= body);
        }
    }
    if start >= v.len() {
        return None;
    }
    let mut acc: i128 = 0;
    let mut i: usize = start;
    proof {
        assert(body.take(0) =~= Seq::empty());
    }
    while i < v.len()
        invariant
            start <= i <= v@.len(),
            s == v@.skip(from as int),
            body == v@.skip(start as int),
            exponent(s) is Some ==> numeral::all_digits(body),
            forall|j: int| 0 <= j < i - start ==> numeral::is_digit(#[trigger] body[j]),
            0 <= acc <= FAR,
            acc == capped(numeral::value(body.take(i - start)) as int),
        decreases v@.len() - i,
    {
        let c: char = v[i];
        if !('0' <= c && c <= '9') {
            proof {
                assert(!numeral::is_digit(body[i - start]));
            }
            return None;
        }
        let d: i128 = c as i128 - 0x30;
        proof {
            assert(body.take(i - start + 1).drop_last() =~= body.take(i - start));
            assert(body.take(i - start + 1).last() == c);
        }
        if acc < FAR {
            acc = acc * 10 + d;
            if acc > FAR {
                acc = FAR;
            }
        }
        i = i + 1;
    }
    proof {
        assert(body.take(i - start) =~= body);
    }
    if negative {
        Some(-acc)
    } else {
        Some(acc)
    }
}

/// Is every character from one index to another a digit?
fn digits_between(v: &Vec<char>, from: usize, to: usize) -> (r: bool)
    requires
        from <= to <= v@.len(),
    ensures
        r == numeral::all_digits(v@.subrange(from as int, to as int)),
{
    let ghost s = v@.subrange(from as int, to as int);
    let mut i: usize = from;
    while i < to
        invariant
            from <= i <= to <= v@.len(),
            s == v@.subrange(from as int, to as int),
            forall|j: int| 0 <= j < i - from ==> numeral::is_digit(#[trigger] s[j]),
        decreases to - i,
    {
        let c: char = v[i];
        if !('0' <= c && c <= '9') {
            proof {
                assert(!numeral::is_digit(s[i - from]));
            }
            return false;
        }
        i = i + 1;
    }
    true
}

fn find_char(v: &Vec<char>, c: char, d: char, to: usize) -> (r: Option<usize>)
    requires
        to <= v@.len(),
    ensures
        match r {
            Some(k) => k < to && pick::first(to as int, |i: int| v@[i] == c || v@[i] == d) == Some(
                k as int,
            ),
            None => pick::first(to as int, |i: int| v@[i] == c || v@[i] == d) is None,
        },
{
    let ghost p = |i: int| v@[i] == c || v@[i] == d;
    let mut r: Option<usize> = None;
    let mut i: usize = 0;
    while i < to
        invariant
            i <= to <= v@.len(),
            p == (|i: int| v@[i] == c || v@[i] == d),
            match r {
                Some(k) => k < i && pick::first(i as int, p) == Some(k as int),
                None => pick::first(i as int, p) is None,
            },
        decreases to - i,
    {
        let x: char = v[i];
        if r.is_none() && (x == c || x == d) {
            r = Some(i);
        }
        i = i + 1;
    }
    r
}

proof fn lemma_first_same(n: int, p: spec_fn(int) -> bool, q: spec_fn(int) -> bool)
    requires
        forall|i: int| 0 <= i < n ==> p(i) == #[trigger] q(i),
    ensures
        pick::first(n, p) == pick::first(n, q),
    decreases n,
{
    if n > 0 {
        lemma_first_same(n - 1, p, q);
        assert(p(n - 1) == q(n - 1));
    }
}

/// Read digits with at most one point among the first `to` characters: gives
/// the place of the point, or `to`.
fn read_mantissa(v: &Vec<char>, to: usize) -> (r: Option<usize>)
    requires
        to <= v@.len(),
    ensures
        match r {
            Some(dot) => {
                let behind = if dot < to {
                    v@.subrange(dot + 1, to as int)
                } else {
                    Seq::empty()
                };
                dot <= to && mantissa(v@.take(to as int)) == Some(
                    (v@.take(dot as int) + behind, behind.len() as int),
                )
            },
            None => mantissa(v@.take(to as int)) is None,
        },
{
    let ghost s = v@.take(to as int);
    let dot: Option<usize> = find_char(v, '.', '.', to);
    proof {
        lemma_first_same(
            to as int,
            |i: int| v@[i] == '.' || v@[i] == '.',
            |i: int| s[i] == '.',
        );
    }
    match dot {
        Some(i) => {
            proof {
                assert(s.take(i as int) =~= v@.take(i as int));
                assert(v@.take(i as int) =~= v@.subrange(0, i as int));
                assert(s.skip(i + 1) =~= v@.subrange(i + 1, to as int));
            }
            if digits_between(v, 0, i) && digits_between(v, i + 1, to) && to > 1 {
                Some(i)
            } else {
                None
            }
        },
        None => {
            proof {
                assert(s =~= v@.subrange(0, to as int));
                assert(v@.take(to as int) + Seq::<char>::empty() =~= s);
            }
            if digits_between(v, 0, to) && to > 0 {
                Some(to)
            } else {
                None
            }
        },
    }
}

/// Collect the digits of a text into a long number without leading zeros.
fn collect(v: &Vec<char>, from: usize, to: usize, n: &mut Vec<u8>, Ghost(before): Ghost<Seq<char>>)
    requires
        from <= to <= v@.len(),
        numeral::all_digits(v@.subrange(from as int, to as int)),
        decimal::digits_only(old(n)@),
        decimal::number(old(n)@) == numeral::value(before),
        old(n)@.len() > 0 ==> decimal::number(old(n)@) >= decimal::pow10(
            (old(n)@.len() - 1) as nat,
        ),
    ensures
        decimal::digits_only(final(n)@),
        decimal::number(final(n)@) == numeral::value(
            before + v@.subrange(from as int, to as int),
        ),
        final(n)@.len() > 0 ==> decimal::number(final(n)@) >= decimal::pow10(
            (final(n)@.len() - 1) as nat,
        ),
{
    let ghost s = v@.subrange(from as int, to as int);
    let mut i: usize = from;
    proof {
        assert(before + s.take(0) =~= before);
    }
    while i < to
        invariant
            from <= i <= to <= v@.len(),
            s == v@.subrange(from as int, to as int),
            numeral::all_digits(s),
            decimal::digits_only(n@),
            decimal::number(n@) == numeral::value(before + s.take(i - from)),
            n@.len() > 0 ==> decimal::number(n@) >= decimal::pow10((n@.len() - 1) as nat),
        decreases to - i,
    {
        let c: char = v[i];
        proof {
            assert(s[i - from] == c);
            assert((before + s.take(i - from + 1)).drop_last() =~= before + s.take(i - from));
            assert((before + s.take(i - from + 1)).last() == c);
        }
        let d: u8 = (c as u32 - 0x30) as u8;
        if d != 0 || n.len() > 0 {
            let ghost k = n@.len();
            append_digit(n, d);
            proof {
                if k == 0 {
                    assert(decimal::pow10(0) == 1);
                } else {
                    assert(decimal::pow10(k) == 10 * decimal::pow10((k - 1) as nat));
                }
            }
        } else {
            proof {
                assert(decimal::number(n@) == 0);
            }
        }
        i = i + 1;
    }
    proof {
        assert(s.take(i - from) =~= s);
    }
}

/// Rounding is at most the bound where the exponent is small.
fn round_small(m: u64, e: i64) -> (r: i128)
    requires
        P52 <= m <= P53,
    ensures
        0 <= r,
        r <= i64::MAX ==> r == round_away(m as nat, e as int),
        r > i64::MAX ==> round_away(m as nat, e as int) > i64::MAX,
{
    if e >= 11 {
        proof {
            decimal::lemma_pow2_rises(11, e as nat);
            reveal_with_fuel(decimal::pow2, 12);
            assert(m * decimal::pow2(e as nat) >= P52 * 2048) by (nonlinear_arith)
                requires
                    m >= P52,
                    decimal::pow2(e as nat) >= 2048,
            ;
        }
        return 0x8000_0000_0000_0000;
    }
    if e >= 0 {
        let mut r: i128 = m as i128;
        let mut k: i64 = 0;
        proof {
            assert(m * decimal::pow2(0) == m) by (nonlinear_arith)
                requires
                    decimal::pow2(0) == 1,
            ;
        }
        while k < e
            invariant
                0 <= k <= e < 11,
                P52 <= m <= P53,
                r == m * decimal::pow2(k as nat),
                0 <= r <= P53 * 1024,
            decreases e - k,
        {
            proof {
                let x = decimal::pow2(k as nat);
                assert(decimal::pow2((k + 1) as nat) == 2 * x);
                assert(m * (2 * x) == 2 * (m * x)) by (nonlinear_arith);
                decimal::lemma_pow2_rises(k as nat, 9);
                reveal_with_fuel(decimal::pow2, 10);
                assert(m * x <= P53 * 512) by (nonlinear_arith)
                    requires
                        m <= P53,
                        x <= 512,
                ;
            }
            r = 2 * r;
            k = k + 1;
        }
        return r;
    }
    if e <= -55 {
        proof {
            decimal::lemma_pow2_rises(55, (-e) as nat);
            decimal::lemma_pow2_add(52, 3);
            decimal::lemma_p52();
            reveal_with_fuel(decimal::pow2, 4);
            let y = decimal::pow2((-e) as nat);
            let m = m as nat;
            assert(decimal::pow2(55) == P52 * 8) by (nonlinear_arith)
                requires
                    decimal::pow2(55) == decimal::pow2(52) * decimal::pow2(3),
                    decimal::pow2(52) == P52,
                    decimal::pow2(3) == 8,
            ;
            assert((2 * m + y) / (2 * y) == 0) by (nonlinear_arith)
                requires
                    2 * m < y,
                    y > 0,
                    m >= 0,
            ;
        }
        return 0;
    }
    let mut y: i128 = 1;
    let mut k: i64 = 0;
    while k < -e
        invariant
            0 <= k <= -e < 55,
            y == decimal::pow2(k as nat),
            1 <= y <= 0x40_0000_0000_0000,
        decreases -e - k,
    {
        proof {
            assert(decimal::pow2((k + 1) as nat) == 2 * decimal::pow2(k as nat));
            decimal::lemma_pow2_rises(k as nat, 53);
            decimal::lemma_pow2_add(52, 1);
            decimal::lemma_p52();
            reveal_with_fuel(decimal::pow2, 2);
        }
        y = 2 * y;
        k = k + 1;
    }
    let r: i128 = (2 * (m as i128) + y) / (2 * y);
    proof {
        assert(r <= 2 * m + y) by (nonlinear_arith)
            requires
                r == (2 * m + y) / (2 * y),
                y >= 1,
                m >= 0,
        ;
    }
    r
}

/// A fraction that is very large stays so.
proof fn lemma_huge(p: nat, q: nat, num: nat, den: nat)
    requires
        q > 0,
        p >= q * decimal::pow10(40),
        num >= 1,
        1 <= den <= 1_000_000,
    ensures
        computed(p, q, num, den) > i64::MAX,
{
    let a = decimal::near(p, q);
    decimal::lemma_pow10_pow2(40);
    decimal::lemma_pow10_positive(40);
    assert(p >= q * decimal::pow2(120) && p > 0) by (nonlinear_arith)
        requires
            p >= q * decimal::pow10(40),
            decimal::pow10(40) >= decimal::pow2(120),
            decimal::pow10(40) > 0,
            q > 0,
    ;
    decimal::lemma_near(p, q);
    decimal::lemma_pow2_add(52, 68);
    decimal::lemma_p52();
    decimal::lemma_pow2_add(1, 67);
    reveal_with_fuel(decimal::pow2, 2);
    let h = decimal::pow2(67);
    decimal::lemma_pow2_positive(67);
    assert(decimal::pow2(120) == P53 * h) by (nonlinear_arith)
        requires
            decimal::pow2(120) == decimal::pow2(52) * decimal::pow2(68),
            decimal::pow2(52) == P52,
            decimal::pow2(68) == 2 * h,
    ;
    assert(p >= P52 * q) by (nonlinear_arith)
        requires
            p >= q * decimal::pow2(120),
            decimal::pow2(120) == P53 * h,
            h >= 1,
            q > 0,
    ;
    let x = decimal::pow2(a.1 as nat);
    assert(x > h) by (nonlinear_arith)
        requires
            q * (P53 * h) <= p,
            p < q * x * P53,
            q > 0,
    ;
    if a.1 < 67 {
        decimal::lemma_pow2_rises(a.1 as nat, 67);
        assert(false);
    }
    assert(a.0 * num >= P52) by (nonlinear_arith)
        requires
            a.0 >= P52,
            num >= 1,
    ;
    let b = decimal::near(a.0 * num, den);
    decimal::lemma_near(a.0 * num, den);
    if b.1 < -40 {
        let k = (-b.1) as nat;
        decimal::lemma_pow2_rises(41, k);
        decimal::lemma_pow2_add(20, 21);
        decimal::lemma_pow2_add(10, 10);
        decimal::lemma_pow2_add(10, 11);
        reveal_with_fuel(decimal::pow2, 12);
        assert(decimal::pow2(10) == 1024);
        assert(decimal::pow2(11) == 2048);
        assert(decimal::pow2(41) == 2199023255552) by (nonlinear_arith)
            requires
                decimal::pow2(41) == decimal::pow2(20) * decimal::pow2(21),
                decimal::pow2(20) == decimal::pow2(10) * decimal::pow2(10),
                decimal::pow2(21) == decimal::pow2(10) * decimal::pow2(11),
                decimal::pow2(10) == 1024,
                decimal::pow2(11) == 2048,
        ;
        assert(false) by (nonlinear_arith)
            requires
                a.0 * num * decimal::pow2(k) < den * P53,
                a.0 * num >= P52,
                decimal::pow2(k) >= 2199023255552,
                den <= 1_000_000,
        ;
    }
    let e = a.1 + b.1;
    assert(e >= 27);
    decimal::lemma_pow2_rises(11, e as nat);
    reveal_with_fuel(decimal::pow2, 12);
    assert(b.0 * decimal::pow2(e as nat) >= P52 * 2048) by (nonlinear_arith)
        requires
            b.0 >= P52,
            decimal::pow2(e as nat) >= 2048,
    ;
}

/// A fraction that is very small rounds to zero.
proof fn lemma_tiny(p: nat, q: nat, num: nat, den: nat)
    requires
        p > 0,
        p * decimal::pow10(40) <= q,
        1 <= num <= 0x1000_0000_0000_0000,
        den >= 1,
    ensures
        computed(p, q, num, den) == 0,
{
    let a = decimal::near(p, q);
    decimal::lemma_pow10_pow2(40);
    assert(q >= p * decimal::pow2(120)) by (nonlinear_arith)
        requires
            p * decimal::pow10(40) <= q,
            decimal::pow10(40) >= decimal::pow2(120),
    ;
    decimal::lemma_pow2_positive(120);
    assert(q > 0) by (nonlinear_arith)
        requires
            q >= p * decimal::pow2(120),
            p > 0,
            decimal::pow2(120) > 0,
    ;
    decimal::lemma_near(p, q);
    assert(p < P53 * q) by (nonlinear_arith)
        requires
            q >= p * decimal::pow2(120),
            decimal::pow2(120) > 0,
            p > 0,
    ;
    if a.1 == 0 {
        assert(q * decimal::pow2(0) * P52 == q * P52) by (nonlinear_arith)
            requires
                decimal::pow2(0) == 1,
        ;
        assert(false) by (nonlinear_arith)
            requires
                q * P52 <= p,
                q >= p * decimal::pow2(120),
                decimal::pow2(120) > 0,
                p > 0,
        ;
    }
    let k = (-a.1) as nat;
    if k <= 171 {
        decimal::lemma_pow2_rises(k, 171);
        decimal::lemma_pow2_add(51, 120);
        decimal::lemma_pow2_add(1, 51);
        reveal_with_fuel(decimal::pow2, 2);
        decimal::lemma_p52();
        assert(decimal::pow2(51) * 2 == P52);
        assert(false) by (nonlinear_arith)
            requires
                q * P52 <= p * decimal::pow2(k),
                decimal::pow2(k) <= decimal::pow2(51) * decimal::pow2(120),
                decimal::pow2(51) * 2 == P52,
                q >= p * decimal::pow2(120),
                q > 0,
                p > 0,
        ;
    }
    assert(0 < a.0 * num <= P53 * 0x1000_0000_0000_0000) by (nonlinear_arith)
        requires
            0 < a.0 <= P53,
            1 <= num <= 0x1000_0000_0000_0000,
    ;
    let b = decimal::near(a.0 * num, den);
    decimal::lemma_near(a.0 * num, den);
    if b.1 > 61 {
        decimal::lemma_pow2_rises(62, b.1 as nat);
        decimal::lemma_pow2_add(52, 10);
        reveal_with_fuel(decimal::pow2, 11);
        decimal::lemma_p52();
        assert(decimal::pow2(62) == P52 * 1024);
        assert(false) by (nonlinear_arith)
            requires
                den * decimal::pow2(b.1 as nat) * P52 <= a.0 * num,
                decimal::pow2(b.1 as nat) >= P52 * 1024,
                a.0 * num <= P53 * 0x1000_0000_0000_0000,
                den >= 1,
        ;
    }
    let e = a.1 + b.1;
    assert(e <= -55);
    decimal::lemma_pow2_rises(55, (-e) as nat);
    decimal::lemma_pow2_add(52, 3);
    decimal::lemma_p52();
    reveal_with_fuel(decimal::pow2, 4);
    assert(decimal::pow2(3) == 8);
    assert(decimal::pow2(55) == P52 * 8) by (nonlinear_arith)
        requires
            decimal::pow2(55) == decimal::pow2(52) * decimal::pow2(3),
            decimal::pow2(52) == P52,
            decimal::pow2(3) == 8,
    ;
    let y = decimal::pow2((-e) as nat);
    let m = b.0;
    assert((2 * m + y) / (2 * y) == 0) by (nonlinear_arith)
        requires
            2 * m < y,
            y > 0,
            m >= 0,
    ;
}

/// The long number with zeros appended.
fn append_zeros(n: &mut Vec<u8>, k: i128)
    requires
        decimal::digits_only(old(n)@),
        0 <= k,
    ensures
        decimal::digits_only(final(n)@),
        decimal::number(final(n)@) == decimal::number(old(n)@) * decimal::pow10(k as nat),
{
    let ghost n0 = decimal::number(n@);
    let mut i: i128 = 0;
    proof {
        assert(n0 * decimal::pow10(0) == n0) by (nonlinear_arith)
            requires
                decimal::pow10(0) == 1,
        ;
    }
    while i < k
        invariant
            0 <= i <= k,
            decimal::digits_only(n@),
            decimal::number(n@) == n0 * decimal::pow10(i as nat),
        decreases k - i,
    {
        append_digit(n, 0);
        proof {
            let x = decimal::pow10(i as nat);
            assert(decimal::pow10((i + 1) as nat) == 10 * x);
            assert(n0 * (10 * x) == 10 * (n0 * x)) by (nonlinear_arith);
        }
        i = i + 1;
    }
}

/// Where a number with so many digits and such an exponent lies.
proof fn lemma_size(d: nat, n: nat, exp: int)
    requires
        n > 0,
        decimal::pow10((n - 1) as nat) <= d < decimal::pow10(n),
    ensures
        n + exp > 40 ==> d * decimal::pow10(
            if exp >= 0 {
                exp as nat
            } else {
                0
            },
        ) >= below(exp) * decimal::pow10(40),
        n + exp < -40 ==> d * decimal::pow10(
            if exp >= 0 {
                exp as nat
            } else {
                0
            },
        ) * decimal::pow10(40) <= below(exp),
        n + exp <= 40 ==> d * decimal::pow10(
            if exp >= 0 {
                exp as nat
            } else {
                0
            },
        ) < below(exp) * decimal::pow10(40),
        n + exp >= -40 ==> below(exp) <= d * decimal::pow10(
            if exp >= 0 {
                exp as nat
            } else {
                0
            },
        ) * decimal::pow10(41),
        below(exp) > 0,
        d > 0,
{
    let up: nat = if exp >= 0 {
        exp as nat
    } else {
        0
    };
    let down: nat = if exp >= 0 {
        0
    } else {
        (-exp) as nat
    };
    let u = decimal::pow10(up);
    let w = decimal::pow10(down);
    let t = decimal::pow10((n - 1) as nat);
    let t1 = decimal::pow10(n);
    let z = decimal::pow10(40);
    let z1 = decimal::pow10(41);
    decimal::lemma_pow10_positive(up);
    decimal::lemma_pow10_positive(down);
    decimal::lemma_pow10_positive((n - 1) as nat);
    decimal::lemma_pow10_add((n - 1) as nat, up);
    decimal::lemma_pow10_add(n, up);
    decimal::lemma_pow10_add(down, 40);
    decimal::lemma_pow10_add(n + up, 40);
    decimal::lemma_pow10_add((n - 1) as nat + up, 41);
    assert(t * u <= d * u) by (nonlinear_arith)
        requires
            t <= d,
    ;
    assert(d * u < t1 * u) by (nonlinear_arith)
        requires
            d < t1,
            u > 0,
    ;
    if n + exp > 40 {
        decimal::lemma_pow10_rises(down + 40, (n - 1) as nat + up);
    }
    if n + exp <= 40 {
        decimal::lemma_pow10_rises(n + up, down + 40);
    }
    if n + exp < -40 {
        decimal::lemma_pow10_rises(n + up + 40, down);
        assert(d * u * z <= (t1 * u) * z) by (nonlinear_arith)
            requires
                d * u < t1 * u,
        ;
    }
    if n + exp >= -40 {
        decimal::lemma_pow10_rises(down, (n - 1) as nat + up + 41);
        assert((t * u) * z1 <= d * u * z1) by (nonlinear_arith)
            requires
                t * u <= d * u,
        ;
    }
}

/// Compute with digits and an exponent. The exponent may have been capped.
fn compute(
    n: Vec<u8>,
    exp: i128,
    num: u128,
    den: u128,
    Ghost(digits): Ghost<Seq<char>>,
    Ghost(exact): Ghost<int>,
) -> (r: i128)
    requires
        decimal::digits_only(n@),
        n@.len() > 0,
        decimal::number(n@) == numeral::value(digits),
        decimal::number(n@) >= decimal::pow10((n@.len() - 1) as nat),
        stands_for(exp, exact),
        1 <= num <= 0x1000_0000_0000_0000,
        1 <= den <= 1_000_000,
    ensures
        0 <= r,
        r <= i64::MAX ==> r == computed(above(digits, exact), below(exact), num as nat, den as nat),
        r > i64::MAX ==> computed(above(digits, exact), below(exact), num as nat, den as nat)
            > i64::MAX,
{
    let len: i128 = n.len() as i128;
    let ghost d = decimal::number(n@);
    proof {
        decimal::lemma_low_bound(n@, n@.len());
        lemma_size(d, n@.len(), exact);
    }
    if len + exp > 40 {
        proof {
            lemma_huge(above(digits, exact), below(exact), num as nat, den as nat);
        }
        return 0x8000_0000_0000_0000;
    }
    if len + exp < -40 {
        proof {
            decimal::lemma_pow10_positive(
                if exact >= 0 {
                    exact as nat
                } else {
                    0
                },
            );
            let u = decimal::pow10(
                if exact >= 0 {
                    exact as nat
                } else {
                    0
                },
            );
            assert(d * u > 0) by (nonlinear_arith)
                requires
                    d > 0,
                    u > 0,
            ;
            lemma_tiny(above(digits, exact), below(exact), num as nat, den as nat);
        }
        return 0;
    }
    let mut p: Vec<u8> = n;
    let mut q: Vec<u8> = Vec::new();
    q.push(1);
    proof {
        assert(decimal::low(q@, 0) == 0);
        assert(decimal::pow10(0) == 1);
        assert(decimal::number(q@) == 1 * decimal::pow10(0));
        assert(1 * decimal::pow10(0) == 1);
        assert(d * 1 == d);
    }
    if exp >= 0 {
        append_zeros(&mut p, exp);
    } else {
        append_zeros(&mut q, -exp);
    }
    proof {
        assert(decimal::number(p@) == above(digits, exact));
        assert(decimal::number(q@) == below(exact));
        decimal::lemma_pow10_positive(
            if exact >= 0 {
                exact as nat
            } else {
                0
            },
        );
        let u = decimal::pow10(
            if exact >= 0 {
                exact as nat
            } else {
                0
            },
        );
        assert(d * u > 0) by (nonlinear_arith)
            requires
                d > 0,
                u > 0,
        ;
    }
    let a: (u64, i64) = nearest_long(p, &q);
    proof {
        assert(0 < a.0 * num <= P53 * 0x1000_0000_0000_0000) by (nonlinear_arith)
            requires
                0 < a.0 <= P53,
                1 <= num <= 0x1000_0000_0000_0000,
        ;
    }
    let b: (u64, i64) = nearest_short(a.0 as u128 * num, den);
    round_small(b.0, a.1 + b.1)
}

/// Is an exponent exact, or out of reach in the same direction?
pub open spec fn stands_for(e: i128, exact: int) -> bool {
    -FAR - FAR < e < FAR + FAR && (e == exact || (e > FAR / 2 && exact > e) || (e < -FAR / 2 && exact
        < e))
}

/// Read the digits of a number and the power of ten they are taken by.
fn read_unsigned(v: &Vec<char>) -> (r: Option<(Vec<u8>, i128)>)
    ensures
        match r {
            Some(t) => unsigned(v@) matches Some(u) && decimal::digits_only(t.0@)
                && decimal::number(t.0@) == numeral::value(u.0) && (t.0@.len() > 0
                ==> decimal::number(t.0@) >= decimal::pow10((t.0@.len() - 1) as nat))
                && stands_for(t.1, u.1),
            None => unsigned(v@) is None,
        },
{
    let mark: Option<usize> = find_char(v, 'e', 'E', v.len());
    let to: usize = match mark {
        Some(i) => i,
        None => v.len(),
    };
    let x: i128 = match mark {
        Some(i) => match read_exponent(v, i + 1) {
            Some(x) => x,
            None => {
                return None;
            },
        },
        None => 0,
    };
    proof {
        assert(v@.take(v@.len() as int) =~= v@);
    }
    let dot: usize = match read_mantissa(v, to) {
        Some(d) => d,
        None => {
            return None;
        },
    };
    let ghost behind = if dot < to {
        v@.subrange(dot + 1, to as int)
    } else {
        Seq::empty()
    };
    let ghost digits = v@.take(dot as int) + behind;
    proof {
        lemma_mantissa_digits(v@.take(to as int), digits);
        assert(v@.take(dot as int) =~= v@.subrange(0, dot as int));
        assert forall|i: int| 0 <= i < dot implies numeral::is_digit(
            #[trigger] v@.subrange(0, dot as int)[i],
        ) by {
            assert(digits[i] == v@.take(dot as int)[i]);
        }
        assert forall|i: int| 0 <= i < behind.len() implies numeral::is_digit(
            #[trigger] behind[i],
        ) by {
            assert(digits[dot + i] == behind[i]);
        }
    }
    let mut d: Vec<u8> = Vec::new();
    proof {
        assert(decimal::number(d@) == 0);
        assert(numeral::value(Seq::<char>::empty()) == 0);
        assert(Seq::<char>::empty() + v@.subrange(0, dot as int) =~= v@.take(dot as int));
    }
    collect(v, 0, dot, &mut d, Ghost(Seq::empty()));
    proof {
        assert(v@.take(dot as int) + Seq::<char>::empty() =~= v@.take(dot as int));
    }
    if dot < to {
        collect(v, dot + 1, to, &mut d, Ghost(v@.take(dot as int)));
    }
    let frac: i128 = if dot < to {
        (to - dot - 1) as i128
    } else {
        0
    };
    Some((d, x - frac))
}

/// Read a decimal number and take it times `num / den`, in double precision,
/// as the nearest 64-bit integer.
pub fn read_scaled(s: &str, num: u128, den: u128) -> (r: Option<i64>)
    requires
        1 <= num <= 0x1000_0000_0000_0000,
        1 <= den <= 1_000_000,
    ensures
        match r {
            Some(n) => reading(s@) matches Some(x) && n == scaled(x, num as nat, den as nat),
            None => reading(s@) is None,
        },
{
    let all: Vec<char> = chars_of(s);
    let signed: bool = all.len() > 0 && (all[0] == '-' || all[0] == '+');
    let negative: bool = all.len() > 0 && all[0] == '-';
    let n: usize = s.unicode_len();
    let body: String = if signed {
        cut(s, 1, n)
    } else {
        s.to_owned()
    };
    proof {
        if signed {
            assert(body@ =~= s@.skip(1));
        }
    }
    if alike(body.as_str(), "inf") || alike(body.as_str(), "infinity") {
        return Some(
            if negative {
                i64::MIN
            } else {
                i64::MAX
            },
        );
    }
    if alike(body.as_str(), "nan") {
        return Some(0);
    }
    let v: Vec<char> = chars_of(body.as_str());
    match read_unsigned(&v) {
        Some(t) => {
            let ghost u = unsigned(body@)->0;
            if t.0.len() == 0 {
                proof {
                    assert(decimal::number(t.0@) == 0);
                }
                return Some(0);
            }
            proof {
                decimal::lemma_pow10_positive((t.0@.len() - 1) as nat);
            }
            let r: i128 = compute(t.0, t.1, num, den, Ghost(u.0), Ghost(u.1));
            if negative {
                if r > i64::MAX as i128 {
                    Some(i64::MIN)
                } else {
                    Some((-r) as i64)
                }
            } else {
                if r > i64::MAX as i128 {
                    Some(i64::MAX)
                } else {
                    Some(r as i64)
                }
            }
        },
        None => None,
    }
}

/// The digits of a number are digits.
proof fn lemma_mantissa_digits(s: Seq<char>, d: Seq<char>)
    requires
        mantissa(s) matches Some(m) && m.0 == d,
    ensures
        numeral::all_digits(d),
{
    let dot = pick::first(s.len() as int, |i: int| s[i] == '.');
    let before = match dot {
        Some(i) => s.take(i),
        None => s,
    };
    assert forall|i: int| 0 <= i < d.len() implies numeral::is_digit(#[trigger] d[i]) by {
        if i < before.len() {
            assert(d[i] == before[i]);
        } else {
            let k = dot->0;
            assert(d[i] == s.skip(k + 1)[i - before.len()]);
        }
    }
}

} // verus!
