//! Kubernetes resource quantities ("500m", "1.5", "256Mi", "1G"): reading
//! them, and writing sizes for people.
//!
//! A quantity is computed in double precision, as every consumer of the API
//! does. The functions here state that arithmetic over integers: a number in
//! double precision is a fraction whose numerator has 53 bits, and every
//! operation gives the nearest such number to the exact result.

use crate::numeral;
use crate::numeral::{dec_i64, dec_u64};
use crate::reading;
use crate::reading::read_scaled;
use crate::scan;
use crate::scan::{cut, ends, trimmed};
use crate::text::{cat2, cat3, cat4};
use vstd::prelude::*;

verus! {

/// Two to the 52nd and 53rd: the bounds of a numerator in double precision.
pub const P52: u128 = 4_503_599_627_370_496;

pub const P53: u128 = 9_007_199_254_740_992;

/// The integer nearest to `p / q`; halfway between two, the even one.
pub open spec fn half_even(p: nat, q: nat) -> nat {
    let f = p / q;
    let r = p % q;
    if 2 * r < q || (2 * r == q && f % 2 == 0) {
        f
    } else {
        f + 1
    }
}

/// The number in double precision nearest to `p / q`, as a fraction: its
/// numerator before scaling has 53 bits, and of two that are equally near it
/// is the one with an even numerator.
pub open spec fn double(p: nat, q: nat) -> (nat, nat)
    decreases
            (if p >= P53 * q {
                1int
            } else {
                0int
            }),
            (if p >= P53 * q {
                p - q
            } else {
                P53 * q - p
            }),
{
    if p == 0 || q == 0 {
        (0, 1)
    } else if p >= P53 * q {
        let r = double(p, 2 * q);
        (2 * r.0, r.1)
    } else if p < P52 * q {
        let r = double(2 * p, q);
        (r.0, 2 * r.1)
    } else {
        (half_even(p, q), 1)
    }
}

pub fn rounded(p: u128, q: u128) -> (r: u128)
    requires
        0 < q < 0x1_0000_0000_0000_0000_0000_0000_0000,
    ensures
        r == half_even(p as nat, q as nat),
{
    let f: u128 = p / q;
    let m: u128 = p % q;
    if 2 * m < q || (2 * m == q && f % 2 == 0) {
        f
    } else {
        proof {
            assert(p / q <= p) by (nonlinear_arith)
                requires
                    q > 0,
            ;
            if f == u128::MAX {
                assert(p / q == p && q > 1 ==> p == 0) by (nonlinear_arith)
                    requires
                        q > 0,
                ;
                assert(p % 1 == 0);
            }
        }
        f + 1
    }
}

/// Rounding to double precision at most doubles a number, and never gives zero
/// for one that is not; from 2 to the 52nd on it gives an integer.
pub proof fn lemma_double(p: nat, q: nat)
    requires
        p > 0,
        q > 0,
    ensures
        0 < double(p, q).0,
        0 < double(p, q).1,
        double(p, q).0 * q <= 2 * p * double(p, q).1,
        p >= P52 * q ==> double(p, q).1 == 1,
    decreases
            (if p >= P53 * q {
                1int
            } else {
                0int
            }),
            (if p >= P53 * q {
                p - q
            } else {
                P53 * q - p
            }),
{
    if p >= P53 * q {
        lemma_double(p, 2 * q);
        let r = double(p, 2 * q);
        assert((2 * r.0) * q == r.0 * (2 * q)) by (nonlinear_arith);
    } else if p < P52 * q {
        lemma_double(2 * p, q);
        let r = double(2 * p, q);
        assert(2 * p * (2 * r.1) == 2 * (2 * p) * r.1) by (nonlinear_arith);
    } else {
        let f = p / q;
        assert(f * q <= p && f >= P52) by (nonlinear_arith)
            requires
                f == p / q,
                q > 0,
                p >= P52 * q,
        ;
        assert((f + 1) * q == f * q + q) by (nonlinear_arith);
    }
}

/// The nearest number in double precision, for fractions of moderate size.
fn nearest(p0: u128, q0: u128) -> (r: (u128, u128))
    requires
        0 < p0 < 0x1_0000_0000_0000_0000,
        0 < q0 <= 1000,
    ensures
        (r.0 as nat, r.1 as nat) == double(p0 as nat, q0 as nat),
        0 < r.0 <= 0x4_0000_0000_0000_0000,
        0 < r.1 <= 0x4_0000_0000_0000_0000,
        r.0 * q0 <= 2 * p0 * r.1,
        p0 >= P52 * q0 ==> r.1 == 1,
{
    proof {
        lemma_double(p0 as nat, q0 as nat);
    }
    let mut p: u128 = p0;
    let mut q: u128 = q0;
    let mut a: u128 = 1;
    let mut b: u128 = 1;
    let ghost whole = double(p0 as nat, q0 as nat);
    while p >= P53 * q
        invariant
            p == p0,
            0 < p < 0x1_0000_0000_0000_0000,
            0 < a <= q <= 4096,
            whole.0 == a * double(p as nat, q as nat).0,
            whole.1 == double(p as nat, q as nat).1,
        decreases p - q,
    {
        proof {
            assert(a * (2 * double(p as nat, (2 * q) as nat).0) == (2 * a) * double(
                p as nat,
                (2 * q) as nat,
            ).0) by (nonlinear_arith);
        }
        q = 2 * q;
        a = 2 * a;
    }
    while p < P52 * q
        invariant
            0 < b <= p < 0x2_0000_0000_0000_0000,
            p < P53 * q,
            0 < a <= q <= 4096,
            whole.0 == a * double(p as nat, q as nat).0,
            whole.1 == b * double(p as nat, q as nat).1,
        decreases P53 * q - p,
    {
        proof {
            assert(b * (2 * double((2 * p) as nat, q as nat).1) == (2 * b) * double(
                (2 * p) as nat,
                q as nat,
            ).1) by (nonlinear_arith);
        }
        p = 2 * p;
        b = 2 * b;
    }
    let m: u128 = rounded(p, q);
    proof {
        assert(p / q < P53) by (nonlinear_arith)
            requires
                p < P53 * q,
                q > 0,
        ;
        assert(a * m <= 4096 * P53) by (nonlinear_arith)
            requires
                0 <= a <= 4096,
                0 <= m <= P53,
        ;
    }
    (a * m, b)
}

/// The number in double precision nearest to an integer, which is an integer
/// too.
pub open spec fn whole_double(n: nat) -> nat {
    if n < P53 {
        n
    } else {
        double(n, 1).0
    }
}

fn nearest_whole(n: i64) -> (r: u128)
    requires
        0 < n,
    ensures
        r == whole_double(n as nat),
        0 < r < 0x1_0000_0000_0000_0000,
{
    if (n as u128) < P53 {
        n as u128
    } else {
        nearest(n as u128, 1).0
    }
}

/// A size in a unit: without a fraction when it is within a twentieth of a
/// whole number of units, else with one decimal.
pub open spec fn in_unit(b: nat, size: nat, unit: Seq<char>) -> Seq<char> {
    let n = whole_double(b);
    let whole = (2 * n + size) / (2 * size);
    let off = n - whole * size;
    let tenths = half_even(10 * n, size);
    if -size < 20 * off < size {
        numeral::dec(whole as int) + unit
    } else {
        numeral::dec((tenths / 10) as int) + "."@ + numeral::dec((tenths % 10) as int) + unit
    }
}

/// A number of bytes for people, e.g. 268435456 is "256Mi".
pub open spec fn size_text(b: int) -> Seq<char> {
    if b >= 1_073_741_824 {
        in_unit(b as nat, 1_073_741_824, "Gi"@)
    } else if b >= 1_048_576 {
        in_unit(b as nat, 1_048_576, "Mi"@)
    } else if b >= 1024 {
        in_unit(b as nat, 1024, "Ki"@)
    } else {
        numeral::dec(b) + "B"@
    }
}

fn fmt_unit(b: i64, size: u128, unit: &str) -> (r: String)
    requires
        0 < b,
        1024 <= size <= 1_073_741_824,
    ensures
        r@ == in_unit(b as nat, size as nat, unit@),
{
    let n: u128 = nearest_whole(b);
    let whole: u128 = (2 * n + size) / (2 * size);
    proof {
        let w = whole as int;
        let x = 2 * n + size;
        let y = 2 * size;
        assert(w * y <= x < (w + 1) * y && w >= 0) by (nonlinear_arith)
            requires
                w == x / y,
                y > 0,
                x >= 0,
        ;
        assert(2 * (w * size) == w * y) by (nonlinear_arith)
            requires
                y == 2 * size,
        ;
        assert((w + 1) * y == w * y + y) by (nonlinear_arith);
        assert(2048 * w <= x) by (nonlinear_arith)
            requires
                w * y <= x,
                y >= 2048,
                w >= 0,
        ;
    }
    let off: i128 = n as i128 - (whole * size) as i128;
    if -(size as i128) < 20 * off && 20 * off < size as i128 {
        cat2(dec_u64(whole as u64).as_str(), unit)
    } else {
        let t: u128 = rounded(10 * n, size);
        proof {
            let f = (10 * n) / (size as int);
            assert(1024 * f <= 10 * n) by (nonlinear_arith)
                requires
                    f == (10 * n) / (size as int),
                    size >= 1024,
                    n >= 0,
            ;
        }
        cat4(dec_u64((t / 10) as u64).as_str(), ".", dec_u64((t % 10) as u64).as_str(), unit)
    }
}

/// Human readable binary size, e.g. 268435456 -> "256Mi".
pub fn fmt_bytes(b: i64) -> (r: String)
    ensures
        r@ == size_text(b as int),
{
    if b >= 1_073_741_824 {
        fmt_unit(b, 1_073_741_824, "Gi")
    } else if b >= 1_048_576 {
        fmt_unit(b, 1_048_576, "Mi")
    } else if b >= 1024 {
        fmt_unit(b, 1024, "Ki")
    } else {
        cat2(dec_i64(b).as_str(), "B")
    }
}

/// Two decimal digits.
pub open spec fn two_digits(n: nat) -> Seq<char> {
    if n < 10 {
        "0"@ + numeral::dec(n as int)
    } else {
        numeral::dec(n as int)
    }
}

/// CPU for people: whole cores, cores with two decimals, or millicores.
pub open spec fn cpu_text(milli: int) -> Seq<char> {
    if milli % 1000 == 0 {
        numeral::dec(milli / 1000)
    } else if milli > 1000 {
        let v = double(whole_double(milli as nat), 1000);
        let hundredths = half_even(100 * v.0, v.1);
        numeral::dec((hundredths / 100) as int) + "."@ + two_digits(hundredths % 100)
    } else {
        numeral::dec(milli) + "m"@
    }
}

fn two_places(n: u64) -> (r: String)
    ensures
        r@ == two_digits(n as nat),
{
    if n < 10 {
        cat2("0", dec_u64(n).as_str())
    } else {
        dec_u64(n)
    }
}

fn cores(milli: i64) -> (r: String)
    requires
        milli > 1000,
        milli % 1000 != 0,
    ensures
        r@ == cpu_text(milli as int),
{
    let n: u128 = nearest_whole(milli);
    let v: (u128, u128) = nearest(n, 1000);
    let t: u128 = rounded(100 * v.0, v.1);
    proof {
        let f = (100 * v.0) / (v.1 as int);
        assert(f * v.1 <= 100 * v.0) by (nonlinear_arith)
            requires
                f == (100 * v.0) / (v.1 as int),
                v.1 > 0,
        ;
        assert(5 * f <= n) by (nonlinear_arith)
            requires
                f * v.1 <= 100 * v.0,
                v.0 * 1000 <= 2 * n * v.1,
                v.1 > 0,
        ;
    }
    cat3(dec_u64((t / 100) as u64).as_str(), ".", two_places((t % 100) as u64).as_str())
}

/// Human readable CPU, e.g. 500 -> "500m", 2000 -> "2".
pub fn fmt_cpu(milli: i64) -> (r: String)
    ensures
        r@ == cpu_text(milli as int),
{
    if milli <= 0 {
        let m: i128 = -(milli as i128);
        let k: i128 = m / 1000;
        if m == k * 1000 {
            dec_i64((-k) as i64)
        } else {
            cat2(dec_i64(milli).as_str(), "m")
        }
    } else if milli % 1000 == 0 {
        dec_i64(milli / 1000)
    } else if milli > 1000 {
        cores(milli)
    } else {
        cat2(dec_i64(milli).as_str(), "m")
    }
}

/// The number of a CPU quantity, and what to take it by for thousandths.
pub open spec fn cpu_unit(s: Seq<char>) -> (Seq<char>, nat, nat) {
    if scan::ends_with(s, "m"@) {
        (s.take(s.len() - 1), 1, 1)
    } else if scan::ends_with(s, "n"@) {
        (s.take(s.len() - 1), 1, 1_000_000)
    } else if scan::ends_with(s, "u"@) {
        (s.take(s.len() - 1), 1, 1_000)
    } else {
        (s, 1_000, 1)
    }
}

/// The number of a memory quantity, and what to take it by for bytes.
pub open spec fn memory_unit(s: Seq<char>) -> (Seq<char>, nat, nat) {
    if scan::ends_with(s, "Ki"@) {
        (s.take(s.len() - 2), 1_024, 1)
    } else     if scan::ends_with(s, "Mi"@) {
        (s.take(s.len() - 2), 1_048_576, 1)
    } else     if scan::ends_with(s, "Gi"@) {
        (s.take(s.len() - 2), 1_073_741_824, 1)
    } else     if scan::ends_with(s, "Ti"@) {
        (s.take(s.len() - 2), 1_099_511_627_776, 1)
    } else     if scan::ends_with(s, "Pi"@) {
        (s.take(s.len() - 2), 1_125_899_906_842_624, 1)
    } else     if scan::ends_with(s, "Ei"@) {
        (s.take(s.len() - 2), 1_152_921_504_606_846_976, 1)
    } else     if scan::ends_with(s, "k"@) {
        (s.take(s.len() - 1), 1_000, 1)
    } else     if scan::ends_with(s, "M"@) {
        (s.take(s.len() - 1), 1_000_000, 1)
    } else     if scan::ends_with(s, "G"@) {
        (s.take(s.len() - 1), 1_000_000_000, 1)
    } else     if scan::ends_with(s, "T"@) {
        (s.take(s.len() - 1), 1_000_000_000_000, 1)
    } else     if scan::ends_with(s, "P"@) {
        (s.take(s.len() - 1), 1_000_000_000_000_000, 1)
    } else     if scan::ends_with(s, "E"@) {
        (s.take(s.len() - 1), 1_000_000_000_000_000_000, 1)
    } else if scan::ends_with(s, "m"@) {
        (s.take(s.len() - 1), 1, 1_000)
    } else {
        (s, 1, 1)
    }
}

/// A quantity as an integer: its number in double precision, taken by its
/// unit.
pub open spec fn amount(u: (Seq<char>, nat, nat)) -> Option<int> {
    match reading::reading(u.0) {
        Some(r) => Some(reading::scaled(r, u.1, u.2)),
        None => None,
    }
}

fn without(s: &str, n: usize) -> (r: String)
    requires
        n <= s@.len(),
    ensures
        r@ == s@.take(s@.len() - n),
{
    let len: usize = s.unicode_len();
    let r: String = cut(s, 0, len - n);
    proof {
        assert(r@ =~= s@.take(s@.len() - n));
    }
    r
}

fn cpu_unit_of(s: &str) -> (r: (String, u128, u128))
    ensures
        (r.0@, r.1 as nat, r.2 as nat) == cpu_unit(s@),
        1 <= r.1 <= 0x1000_0000_0000_0000,
        1 <= r.2 <= 1_000_000,
{
    proof {
        reveal_strlit("m");
        reveal_strlit("n");
        reveal_strlit("u");
    }
    if ends(s, "m") {
        (without(s, 1), 1, 1)
    } else if ends(s, "n") {
        (without(s, 1), 1, 1_000_000)
    } else if ends(s, "u") {
        (without(s, 1), 1, 1_000)
    } else {
        (s.to_owned(), 1_000, 1)
    }
}

fn memory_unit_of(s: &str) -> (r: (String, u128, u128))
    ensures
        (r.0@, r.1 as nat, r.2 as nat) == memory_unit(s@),
        1 <= r.1 <= 0x1000_0000_0000_0000,
        1 <= r.2 <= 1_000_000,
{
    proof {
        reveal_strlit("Ki");
        reveal_strlit("Mi");
        reveal_strlit("Gi");
        reveal_strlit("Ti");
        reveal_strlit("Pi");
        reveal_strlit("Ei");
        reveal_strlit("k");
        reveal_strlit("M");
        reveal_strlit("G");
        reveal_strlit("T");
        reveal_strlit("P");
        reveal_strlit("E");
        reveal_strlit("m");
    }
    if ends(s, "Ki") {
        return (without(s, 2), 1_024, 1);
    }
    if ends(s, "Mi") {
        return (without(s, 2), 1_048_576, 1);
    }
    if ends(s, "Gi") {
        return (without(s, 2), 1_073_741_824, 1);
    }
    if ends(s, "Ti") {
        return (without(s, 2), 1_099_511_627_776, 1);
    }
    if ends(s, "Pi") {
        return (without(s, 2), 1_125_899_906_842_624, 1);
    }
    if ends(s, "Ei") {
        return (without(s, 2), 1_152_921_504_606_846_976, 1);
    }
    if ends(s, "k") {
        return (without(s, 1), 1_000, 1);
    }
    if ends(s, "M") {
        return (without(s, 1), 1_000_000, 1);
    }
    if ends(s, "G") {
        return (without(s, 1), 1_000_000_000, 1);
    }
    if ends(s, "T") {
        return (without(s, 1), 1_000_000_000_000, 1);
    }
    if ends(s, "P") {
        return (without(s, 1), 1_000_000_000_000_000, 1);
    }
    if ends(s, "E") {
        return (without(s, 1), 1_000_000_000_000_000_000, 1);
    }
    if ends(s, "m") {
        return (without(s, 1), 1, 1_000);
    }
    (s.to_owned(), 1, 1)
}

/// CPU quantity to millicores.
pub fn cpu_milli(q: &str) -> (r: Option<i64>)
    ensures
        match r {
            Some(n) => amount(cpu_unit(scan::trim(q@))) == Some(n as int),
            None => amount(cpu_unit(scan::trim(q@))) is None,
        },
{
    let s: String = trimmed(q);
    let u: (String, u128, u128) = cpu_unit_of(s.as_str());
    read_scaled(u.0.as_str(), u.1, u.2)
}

/// Memory quantity to bytes.
pub fn bytes(q: &str) -> (r: Option<i64>)
    ensures
        match r {
            Some(n) => amount(memory_unit(scan::trim(q@))) == Some(n as int),
            None => amount(memory_unit(scan::trim(q@))) is None,
        },
{
    let s: String = trimmed(q);
    let u: (String, u128, u128) = memory_unit_of(s.as_str());
    read_scaled(u.0.as_str(), u.1, u.2)
}

} // verus!
