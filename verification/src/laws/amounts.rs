//! What is written of an amount reads back.

use crate::decimal;
use crate::lettercase;
use crate::numeral;
use crate::pick;
use crate::quantity;
use crate::quantity::{P52, P53};
use crate::reading;
use crate::reading::Reading;
use crate::scan;
use vstd::prelude::*;

verus! {

/// The distance between two numbers.
pub open spec fn apart(a: nat, b: nat) -> nat {
    if a < b {
        (b - a) as nat
    } else {
        (a - b) as nat
    }
}

/// Rounding moves by at most a half.
proof fn lemma_half(p: nat, q: nat)
    requires
        q > 0,
    ensures
        2 * apart(quantity::half_even(p, q) * q, p) <= q,
{
    let f = p / q;
    let r = p % q;
    assert(p == f * q + r && r < q) by (nonlinear_arith)
        requires
            f == p / q,
            r == p % q,
            q > 0,
    ;
    assert((f + 1) * q == f * q + q) by (nonlinear_arith);
}

/// A number in double precision is off by at most a part in two to the 53rd.
proof fn lemma_relative(p: nat, q: nat)
    requires
        p > 0,
        q > 0,
    ensures
        2 * P52 * apart(quantity::double(p, q).0 * q, p * quantity::double(p, q).1) <= p
            * quantity::double(p, q).1,
    decreases
            (if p >= P53 * q {
                1int
            } else {
                0int
            }),
            (if p >= P53 * q {
                p - q
            } else {
                P53 * q - p
            }),
{
    if p >= P53 * q {
        lemma_relative(p, 2 * q);
        let r = quantity::double(p, 2 * q);
        assert((2 * r.0) * q == r.0 * (2 * q)) by (nonlinear_arith);
    } else if p < P52 * q {
        lemma_relative(2 * p, q);
        let r = quantity::double(2 * p, q);
        assert(p * (2 * r.1) == (2 * p) * r.1) by (nonlinear_arith);
    } else {
        lemma_half(p, q);
        let d = apart(quantity::half_even(p, q) * q, p);
        assert(2 * P52 * d <= P52 * q) by (nonlinear_arith)
            requires
                2 * d <= q,
        ;
    }
}

/// The two forms of a number in double precision are the same number.
proof fn lemma_forms(p: nat, q: nat)
    requires
        p > 0,
        q > 0,
    ensures
        decimal::near(p, q).1 >= 0 ==> quantity::double(p, q) == (
            decimal::near(p, q).0 * decimal::pow2(decimal::near(p, q).1 as nat),
            1nat,
        ),
        decimal::near(p, q).1 <= 0 ==> quantity::double(p, q) == (
            decimal::near(p, q).0,
            decimal::pow2((-decimal::near(p, q).1) as nat),
        ),
    decreases
            (if p >= P53 * q {
                1int
            } else {
                0int
            }),
            (if p >= P53 * q {
                p - q
            } else {
                P53 * q - p
            }),
{
    if p >= P53 * q {
        lemma_forms(p, 2 * q);
        decimal::lemma_near(p, 2 * q);
        let r = decimal::near(p, 2 * q);
        let x = decimal::pow2(r.1 as nat);
        assert(decimal::pow2((r.1 + 1) as nat) == 2 * x);
        assert(r.0 * (2 * x) == 2 * (r.0 * x)) by (nonlinear_arith);
    } else if p < P52 * q {
        lemma_forms(2 * p, q);
        decimal::lemma_near(2 * p, q);
        let r = decimal::near(2 * p, q);
        assert(decimal::pow2((-r.1 + 1) as nat) == 2 * decimal::pow2((-r.1) as nat));
    } else {
        let n = quantity::half_even(p, q);
        assert(decimal::pow2(0) == 1);
        assert(n * 1 == n);
    }
}

/// Rounding `b` times two to the power of `e` less `a`, over whole numbers.
proof fn lemma_rounded(b: nat, e: nat, a: nat)
    ensures
        reading::round_away(b, e - a) == (2 * (b * decimal::pow2(e)) + decimal::pow2(a)) / (2
            * decimal::pow2(a)),
{
    let d = decimal::pow2(a);
    let x = decimal::pow2(e);
    decimal::lemma_pow2_positive(a);
    decimal::lemma_pow2_positive(e);
    if e >= a {
        let y = decimal::pow2((e - a) as nat);
        decimal::lemma_pow2_add((e - a) as nat, a);
        let r = b * y;
        assert(b * x == r * d) by (nonlinear_arith)
            requires
                x == y * d,
                r == b * y,
        ;
        assert((2 * (r * d) + d) / (2 * d) == r) by (nonlinear_arith)
            requires
                d > 0,
        ;
    } else {
        let y = decimal::pow2((a - e) as nat);
        decimal::lemma_pow2_add((a - e) as nat, e);
        decimal::lemma_pow2_positive((a - e) as nat);
        let r = (2 * b + y) / (2 * y);
        assert(r * (2 * y) <= 2 * b + y < r * (2 * y) + 2 * y) by (nonlinear_arith)
            requires
                r == (2 * b + y) / (2 * y),
                y > 0,
        ;
        assert(r * (2 * d) <= 2 * (b * x) + d < r * (2 * d) + 2 * d) by (nonlinear_arith)
            requires
                r * (2 * y) <= 2 * b + y,
                2 * b + y < r * (2 * y) + 2 * y,
                d == y * x,
                x > 0,
        ;
        let t = 2 * (b * x) + d;
        assert(t / (2 * d) == r) by (nonlinear_arith)
            requires
                r * (2 * d) <= t < r * (2 * d) + 2 * d,
                d > 0,
        ;
    }
}

/// A sum of two errors, over a common denominator.
proof fn lemma_errors(a: nat, d: nat, n: nat, p: nat, q: nat, num: nat, t: nat)
    requires
        q > 0,
        d > 0,
        t * q == num * p,
        2 * P52 * apart(a * q, p * d) <= p * d,
        2 * P52 * apart(n, a * num) <= a * num,
        a * q <= 2 * p * d,
        3 * t < P52,
    ensures
        2 * apart(n, t * d) < d,
{
    let x = apart(a * q, p * d);
    let y = apart(n, a * num);
    let z = apart(n, t * d);
    let w = apart(a * num, t * d);
    assert(z <= y + w);
    // The first error, times the factor, over the common denominator.
    assert(q * w == num * x) by {
        assert(q * (a * num) == num * (a * q)) by (nonlinear_arith);
        assert(q * (t * d) == num * (p * d)) by (nonlinear_arith)
            requires
                t * q == num * p,
        ;
        if a * num < t * d {
            assert(q * (t * d - a * num) == q * (t * d) - q * (a * num)) by (nonlinear_arith);
            assert(q * (a * num) < q * (t * d)) by (nonlinear_arith)
                requires
                    a * num < t * d,
                    q > 0,
            ;
            assert(a * q < p * d) by (nonlinear_arith)
                requires
                    num * (a * q) < num * (p * d),
                    num >= 0,
            ;
            assert(num * (p * d - a * q) == num * (p * d) - num * (a * q)) by (nonlinear_arith);
        } else {
            assert(q * (a * num - t * d) == q * (a * num) - q * (t * d)) by (nonlinear_arith);
            assert(q * (a * num) >= q * (t * d)) by (nonlinear_arith)
                requires
                    a * num >= t * d,
                    q > 0,
            ;
            if a * q < p * d {
                assert(num * (a * q) <= num * (p * d)) by (nonlinear_arith)
                    requires
                        a * q < p * d,
                        num >= 0,
                ;
                assert(num * (p * d - a * q) == num * (p * d) - num * (a * q)) by (nonlinear_arith);
            } else {
                assert(num * (a * q - p * d) == num * (a * q) - num * (p * d)) by (nonlinear_arith);
            }
        }
    }
    let m = t * d;
    assert(num * (p * d) == q * m) by (nonlinear_arith)
        requires
            t * q == num * p,
            m == t * d,
    ;
    assert(2 * P52 * (q * w) <= q * m) by (nonlinear_arith)
        requires
            q * w == num * x,
            2 * P52 * x <= p * d,
            num * (p * d) == q * m,
            num >= 0,
    ;
    assert(2 * P52 * w <= m) by (nonlinear_arith)
        requires
            2 * P52 * (q * w) <= q * m,
            q > 0,
    ;
    assert(q * (a * num) <= q * (2 * m)) by (nonlinear_arith)
        requires
            a * q <= 2 * p * d,
            num * (p * d) == q * m,
            num >= 0,
    ;
    assert(a * num <= 2 * m) by (nonlinear_arith)
        requires
            q * (a * num) <= q * (2 * m),
            q > 0,
    ;
    assert(2 * P52 * z <= 3 * m) by (nonlinear_arith)
        requires
            2 * P52 * w <= m,
            2 * P52 * y <= a * num,
            a * num <= 2 * m,
            z <= y + w,
    ;
    assert(3 * m < P52 * d) by (nonlinear_arith)
        requires
            m == t * d,
            3 * t < P52,
            d > 0,
    ;
    assert(2 * z < d) by (nonlinear_arith)
        requires
            2 * P52 * z < P52 * d,
    ;
}

/// Where the exact result is a whole number of moderate size, computing in
/// double precision gives it.
proof fn lemma_whole(p: nat, q: nat, num: nat, t: nat)
    requires
        p > 0,
        q > 0,
        num >= 1,
        p < P53 * q,
        t * q == num * p,
        3 * t < P52,
    ensures
        reading::computed(p, q, num, 1) == t,
{
    let a = decimal::near(p, q);
    decimal::lemma_near(p, q);
    lemma_forms(p, q);
    lemma_relative(p, q);
    quantity::lemma_double(p, q);
    let k = (-a.1) as nat;
    let d = decimal::pow2(k);
    decimal::lemma_pow2_positive(k);
    let c = a.0 * num;
    assert(c >= P52) by (nonlinear_arith)
        requires
            c == a.0 * num,
            a.0 >= P52,
            num >= 1,
    ;
    let b = decimal::near(c, 1);
    decimal::lemma_near(c, 1);
    lemma_forms(c, 1);
    lemma_relative(c, 1);
    let n = b.0 * decimal::pow2(b.1 as nat);
    assert(n * 1 == n && c * 1 == c);
    lemma_errors(a.0, d, n, p, q, num, t);
    lemma_rounded(b.0, b.1 as nat, k);
    let s = 2 * n + d;
    assert(s / (2 * d) == t) by (nonlinear_arith)
        requires
            2 * (t * d) < s < 2 * (t * d) + 2 * d,
            d > 0,
    ;
}

/// Nothing is taken off a text without white space at its ends.
proof fn lemma_trim(s: Seq<char>)
    requires
        s.len() > 0,
        !scan::is_space(s[0]),
        !scan::is_space(s.last()),
    ensures
        scan::trim(s) == s,
{
}

/// A text that begins with a digit is no word.
proof fn lemma_no_word(s: Seq<char>, word: Seq<char>)
    requires
        s.len() > 0,
        numeral::is_digit(s[0]),
        word.len() > 0,
        'a' <= word[0] <= 'z',
    ensures
        !lettercase::same_letters(s, word),
{
    let a = lettercase::ascii_lowercase(s);
    let b = lettercase::ascii_lowercase(word);
    if a == b {
        assert(a[0] == s[0]);
        assert(b[0] == word[0]);
    }
}

/// A text of digits, and perhaps a point among them, reads as those digits.
proof fn lemma_reading(s: Seq<char>, before: Seq<char>, behind: Seq<char>)
    requires
        before.len() > 0,
        numeral::all_digits(before),
        numeral::all_digits(behind),
        s == before + (if behind.len() == 0 {
            Seq::empty()
        } else {
            seq!['.'] + behind
        }),
    ensures
        reading::reading(s) == Some(
            Reading::Finite(false, before + behind, -(behind.len() as int)),
        ),
{
    reveal_strlit("inf");
    reveal_strlit("infinity");
    reveal_strlit("nan");
    assert(s[0] == before[0]);
    assert(numeral::is_digit(s[0]));
    lemma_no_word(s, "inf"@);
    lemma_no_word(s, "infinity"@);
    lemma_no_word(s, "nan"@);
    let n = s.len() as int;
    assert forall|i: int| 0 <= i < n implies numeral::is_digit(#[trigger] s[i]) || s[i] == '.' by {
        if i < before.len() {
            assert(s[i] == before[i]);
        } else if i > before.len() {
            assert(s[i] == behind[i - before.len() - 1]);
        }
    }
    let e = |i: int| s[i] == 'e' || s[i] == 'E';
    pick::lemma_first(n, e);
    assert(pick::first(n, e) is None) by {
        if pick::first(n, e) is Some {
            assert(e(pick::first(n, e)->0));
        }
    }
    let dot = |i: int| s[i] == '.';
    pick::lemma_first(n, dot);
    let f = pick::first(n, dot);
    if behind.len() == 0 {
        assert(s =~= before);
        if f is Some {
            assert(dot(f->0));
            assert(numeral::is_digit(before[f->0]));
        }
        assert(before + behind =~= before);
        assert(behind =~= Seq::<char>::empty());
    } else {
        let k = before.len() as int;
        assert(dot(k));
        assert forall|i: int| 0 <= i < k implies !#[trigger] dot(i) by {
            assert(s[i] == before[i]);
        }
        assert(f == Some(k));
        assert(s.take(k) =~= before);
        assert(s.skip(k + 1) =~= behind);
    }
}

/// The written number reads as itself.
proof fn lemma_number(n: nat)
    ensures
        reading::reading(numeral::digits(n)) == Some(
            Reading::Finite(false, numeral::digits(n), 0),
        ),
        numeral::value(numeral::digits(n)) == n,
        numeral::digits(n).len() > 0,
        numeral::is_digit(numeral::digits(n)[0]),
        numeral::is_digit(numeral::digits(n).last()),
{
    let d = numeral::digits(n);
    numeral::lemma_digits_value(n);
    assert(d + Seq::<char>::empty() =~= d);
    lemma_reading(d, d, Seq::empty());
}

/// The two digits of a number below a hundred.
proof fn lemma_two_digits(n: nat)
    requires
        n < 100,
    ensures
        quantity::two_digits(n) == seq![numeral::digit(n / 10), numeral::digit(n % 10)],
{
    reveal_strlit("0");
    reveal_with_fuel(numeral::digits, 2);
    assert(quantity::two_digits(n) =~= seq![numeral::digit(n / 10), numeral::digit(n % 10)]);
}

/// Whole cores read back.
proof fn lemma_cores(k: nat)
    requires
        k <= 1_000_000,
    ensures
        quantity::amount(quantity::cpu_unit(scan::trim(numeral::digits(k)))) == Some(
            (1000 * k) as int,
        ),
{
    let s = numeral::digits(k);
    lemma_number(k);
    lemma_trim(s);
    reveal_strlit("m");
    reveal_strlit("n");
    reveal_strlit("u");
    let n = s.len() as int;
    assert(s.subrange(n - 1, n)[0] == s.last());
    assert(decimal::pow10(0) == 1);
    assert(k * 1 == k);
    if k > 0 {
        lemma_whole(k, 1, 1000, 1000 * k);
    }
}

/// Millicores read back.
proof fn lemma_millis(m: nat)
    requires
        m <= 1000,
    ensures
        quantity::amount(quantity::cpu_unit(scan::trim(numeral::digits(m) + "m"@))) == Some(
            m as int,
        ),
{
    let d = numeral::digits(m);
    lemma_number(m);
    reveal_strlit("m");
    let s = d + "m"@;
    assert(s[0] == d[0]);
    assert(s.last() == 'm');
    lemma_trim(s);
    let n = s.len() as int;
    assert(s.subrange(n - 1, n) =~= "m"@);
    assert(s.take(n - 1) =~= d);
    assert(decimal::pow10(0) == 1);
    assert(m * 1 == m);
    if m > 0 {
        lemma_whole(m, 1, 1, m);
    }
}

/// The digits of a number with its last two apart.
proof fn lemma_apart(h: nat)
    requires
        100 <= h,
    ensures
        numeral::digits(h) == numeral::digits(h / 100) + quantity::two_digits(h % 100),
{
    lemma_two_digits(h % 100);
    let t = h / 10;
    assert((h % 100) / 10 == t % 10 && (h % 100) % 10 == h % 10 && t / 10 == h / 100);
    assert(numeral::digits(h) == numeral::digits(t).push(numeral::digit(h % 10)));
    assert(numeral::digits(t) == numeral::digits(t / 10).push(numeral::digit(t % 10)));
    assert(numeral::digits(h) =~= numeral::digits(h / 100) + quantity::two_digits(h % 100));
}

/// Hundredths of cores read back.
proof fn lemma_hundredths(h: nat)
    requires
        100 <= h <= 200_000_000,
    ensures
        quantity::amount(
            quantity::cpu_unit(
                scan::trim(
                    numeral::dec((h / 100) as int) + "."@ + quantity::two_digits(h % 100),
                ),
            ),
        ) == Some((10 * h) as int),
{
    reveal_strlit(".");
    reveal_strlit("m");
    reveal_strlit("n");
    reveal_strlit("u");
    let a = numeral::digits(h / 100);
    let b = quantity::two_digits(h % 100);
    let s = numeral::dec((h / 100) as int) + "."@ + b;
    numeral::lemma_digits_value(h / 100);
    numeral::lemma_digits_value(h);
    lemma_two_digits(h % 100);
    lemma_apart(h);
    assert(b.len() == 2);
    assert(numeral::all_digits(b));
    assert(s =~= a + (seq!['.'] + b));
    lemma_reading(s, a, b);
    assert(s[0] == a[0]);
    assert(s.last() == b[1]);
    lemma_trim(s);
    let n = s.len() as int;
    assert(s.subrange(n - 1, n)[0] == s.last());
    assert(decimal::pow10(2) == 100) by {
        reveal_with_fuel(decimal::pow10, 3);
    }
    assert(decimal::pow10(0) == 1);
    assert(h * 1 == h);
    lemma_whole(h, 100, 1000, 10 * h);
}

/// What is written of CPU, up to a million cores, reads back: to within five
/// thousandths of a core, and exactly up to one core and for whole hundredths.
pub proof fn cpu_amounts_read_back(m: int)
    requires
        0 <= m <= 1_000_000_000,
    ensures
        quantity::amount(quantity::cpu_unit(scan::trim(quantity::cpu_text(m)))) matches Some(n)
            && -5 <= n - m <= 5 && (m <= 1000 || m % 10 == 0 ==> n == m),
{
    if m % 1000 == 0 {
        lemma_cores((m / 1000) as nat);
    } else if m > 1000 {
        let m = m as nat;
        let v = quantity::double(m, 1000);
        let h = quantity::half_even(100 * v.0, v.1);
        quantity::lemma_double(m, 1000);
        lemma_relative(m, 1000);
        lemma_half(100 * v.0, v.1);
        let x = apart(v.0 * 1000, m * v.1);
        assert(x < v.1) by (nonlinear_arith)
            requires
                2 * P52 * x <= m * v.1,
                m <= 1_000_000_000,
                v.1 > 0,
        ;
        assert((10 * h) * v.1 == 10 * (h * v.1)) by (nonlinear_arith);
        assert(apart((10 * h) * v.1, m * v.1) < 6 * v.1);
        assert(-6 < 10 * h - m < 6) by (nonlinear_arith)
            requires
                -6 * v.1 < (10 * h) * v.1 - m * v.1 < 6 * v.1,
                v.1 > 0,
        ;
        lemma_hundredths(h);
    } else {
        lemma_millis(m as nat);
    }
}

/// A whole number of units, from one to 1023 of them, reads back exactly.
proof fn lemma_units(k: nat, size: nat, unit: Seq<char>)
    requires
        1 <= k < 1024,
        1024 <= size <= 1_073_741_824,
        unit.len() == 2,
        unit[1] == 'i',
        size == 1024 && unit == "Ki"@ || size == 1_048_576 && unit == "Mi"@ || size
            == 1_073_741_824 && unit == "Gi"@,
    ensures
        quantity::in_unit(k * size, size, unit) == numeral::digits(k) + unit,
        quantity::amount(quantity::memory_unit(scan::trim(numeral::digits(k) + unit))) == Some(
            (k * size) as int,
        ),
{
    reveal_strlit("Ki");
    reveal_strlit("Mi");
    reveal_strlit("Gi");
    let b = k * size;
    assert(b <= 1024 * 1_073_741_824) by (nonlinear_arith)
        requires
            b == k * size,
            k < 1024,
            size <= 1_073_741_824,
    ;
    let whole = (2 * b + size) / (2 * size);
    assert(whole == k) by (nonlinear_arith)
        requires
            b == k * size,
            whole == (2 * b + size) / (2 * size),
            size > 0,
    ;
    let d = numeral::digits(k);
    let s = d + unit;
    let n = s.len() as int;
    lemma_number(k);
    assert(s[0] == d[0]);
    assert(s.last() == 'i');
    lemma_trim(s);
    let last = s.subrange(n - 2, n);
    assert(last =~= unit);
    assert(s.take(n - 2) =~= d);
    assert(decimal::pow10(0) == 1);
    assert(k * 1 == k);
    assert(b * 1 == size * k) by (nonlinear_arith)
        requires
            b == k * size,
    ;
    lemma_whole(k, 1, size, b);
    assert("Ki"@[0] == 'K' && "Mi"@[0] == 'M' && "Gi"@[0] == 'G');
}

/// A whole number of Ki, Mi or Gi, from 1 to 1023, reads back exactly as it was
/// written.
pub proof fn whole_sizes_read_back(k: nat, size: nat)
    requires
        1 <= k < 1024,
        size == 1024 || size == 1_048_576 || size == 1_073_741_824,
    ensures
        quantity::amount(
            quantity::memory_unit(scan::trim(quantity::size_text((k * size) as int))),
        ) == Some((k * size) as int),
{
    reveal_strlit("Ki");
    reveal_strlit("Mi");
    reveal_strlit("Gi");
    let b = k * size;
    assert(size <= b < 1024 * size) by (nonlinear_arith)
        requires
            b == k * size,
            1 <= k < 1024,
            size > 0,
    ;
    if size == 1024 {
        lemma_units(k, size, "Ki"@);
    } else if size == 1_048_576 {
        lemma_units(k, size, "Mi"@);
    } else {
        lemma_units(k, size, "Gi"@);
    }
}

/// Is this a unit of memory, and its size in bytes? The units of two letters are
/// powers of 1024, those of one letter powers of a thousand.
pub open spec fn is_unit(u: Seq<char>, size: nat) -> bool {
    ||| u == "Ki"@ && size == 1024
    ||| u == "Mi"@ && size == 1024 * 1024
    ||| u == "Gi"@ && size == 1024 * 1024 * 1024
    ||| u == "Ti"@ && size == 1_099_511_627_776
    ||| u == "Pi"@ && size == 1_125_899_906_842_624
    ||| u == "Ei"@ && size == 1_152_921_504_606_846_976
    ||| u == "k"@ && size == 1000
    ||| u == "M"@ && size == 1000 * 1000
    ||| u == "G"@ && size == 1000 * 1000 * 1000
    ||| u == "T"@ && size == 1_000_000_000_000
    ||| u == "P"@ && size == 1_000_000_000_000_000
    ||| u == "E"@ && size == 1_000_000_000_000_000_000
}

/// A number with a unit of memory is that many times the unit.
pub proof fn units_of_memory_have_their_size(n: Seq<char>, u: Seq<char>, size: nat)
    requires
        is_unit(u, size),
    ensures
        quantity::memory_unit(n + u) == (n, size, 1nat),
{
    reveal_strlit("Ki");
    reveal_strlit("Mi");
    reveal_strlit("Gi");
    reveal_strlit("Ti");
    reveal_strlit("Pi");
    reveal_strlit("Ei");
    reveal_strlit("k");
    reveal_strlit("M");
    reveal_strlit("G");
    reveal_strlit("T");
    reveal_strlit("P");
    reveal_strlit("E");
    let s = n + u;
    let m = s.len() as int;
    assert(s.subrange(m - u.len(), m) =~= u);
    assert(s.take(m - u.len()) =~= n);
    let one = s.subrange(m - 1, m);
    assert(one[0] == u.last());
    if u.len() == 2 {
        let two = s.subrange(m - 2, m);
        assert(two[0] == u[0] && two[1] == u[1]);
        assert("Ki"@[0] == 'K' && "Mi"@[0] == 'M' && "Gi"@[0] == 'G');
        assert("Ti"@[0] == 'T' && "Pi"@[0] == 'P' && "Ei"@[0] == 'E');
    } else {
        if m >= 2 {
            let two = s.subrange(m - 2, m);
            assert(two[1] == u[0]);
        }
        assert("Ki"@[1] == 'i' && "Mi"@[1] == 'i' && "Gi"@[1] == 'i');
        assert("Ti"@[1] == 'i' && "Pi"@[1] == 'i' && "Ei"@[1] == 'i');
        assert("k"@[0] == 'k' && "M"@[0] == 'M' && "G"@[0] == 'G');
        assert("T"@[0] == 'T' && "P"@[0] == 'P' && "E"@[0] == 'E');
    }
}

/// A whole number of any unit of memory reads exactly, up to some petabytes.
pub proof fn whole_memory_reads_exactly(k: nat, u: Seq<char>, size: nat)
    requires
        is_unit(u, size),
        k > 0,
        3 * (k * size) < P52,
    ensures
        quantity::amount(quantity::memory_unit(scan::trim(numeral::digits(k) + u))) == Some(
            (k * size) as int,
        ),
{
    let d = numeral::digits(k);
    let s = d + u;
    units_of_memory_have_their_size(d, u, size);
    lemma_number(k);
    reveal_strlit("Ki");
    reveal_strlit("Mi");
    reveal_strlit("Gi");
    reveal_strlit("Ti");
    reveal_strlit("Pi");
    reveal_strlit("Ei");
    reveal_strlit("k");
    reveal_strlit("M");
    reveal_strlit("G");
    reveal_strlit("T");
    reveal_strlit("P");
    reveal_strlit("E");
    assert(s[0] == d[0]);
    assert(s.last() == u.last());
    lemma_trim(s);
    assert(decimal::pow10(0) == 1);
    assert(k * 1 == k);
    let t = k * size;
    assert(t * 1 == size * k) by (nonlinear_arith)
        requires
            t == k * size,
    ;
    assert(k <= t) by (nonlinear_arith)
        requires
            t == k * size,
            size >= 1,
    ;
    lemma_whole(k, 1, size, t);
}

/// A number of processors is a thousand times as many thousandths; one with `m` is
/// in thousandths, one with `u` in millionths and one with `n` in billionths.
pub proof fn units_of_processors_have_their_size(n: Seq<char>)
    ensures
        quantity::cpu_unit(n + "m"@) == (n, 1nat, 1nat),
        quantity::cpu_unit(n + "u"@) == (n, 1nat, 1000nat),
        quantity::cpu_unit(n + "n"@) == (n, 1nat, 1_000_000nat),
        n.len() > 0 && numeral::is_digit(n.last()) ==> quantity::cpu_unit(n) == (n, 1000nat, 1nat),
        n.len() > 0 && numeral::is_digit(n.last()) ==> quantity::memory_unit(n) == (n, 1nat, 1nat),
{
    reveal_strlit("m");
    reveal_strlit("u");
    reveal_strlit("n");
    let a = n + "m"@;
    let b = n + "u"@;
    let c = n + "n"@;
    let k = n.len() as int;
    assert(a.subrange(k, k + 1) =~= "m"@ && a.take(k) =~= n);
    assert(b.subrange(k, k + 1) =~= "u"@ && b.take(k) =~= n);
    assert(c.subrange(k, k + 1) =~= "n"@ && c.take(k) =~= n);
    assert("m"@[0] == 'm' && "u"@[0] == 'u' && "n"@[0] == 'n');
    if k > 0 && numeral::is_digit(n.last()) {
        reveal_strlit("Ki");
        reveal_strlit("Mi");
        reveal_strlit("Gi");
        reveal_strlit("Ti");
        reveal_strlit("Pi");
        reveal_strlit("Ei");
        reveal_strlit("k");
        reveal_strlit("M");
        reveal_strlit("G");
        reveal_strlit("T");
        reveal_strlit("P");
        reveal_strlit("E");
        assert(n.subrange(k - 1, k)[0] == n.last());
        if k >= 2 {
            assert(n.subrange(k - 2, k)[1] == n.last());
        }
    }
}

/// A number of processors reads as that many thousand thousandths.
pub proof fn whole_processors_read_exactly(k: nat)
    requires
        0 < k <= 1_000_000,
    ensures
        quantity::amount(quantity::cpu_unit(scan::trim(numeral::digits(k)))) == Some(
            (1000 * k) as int,
        ),
{
    let d = numeral::digits(k);
    units_of_processors_have_their_size(d);
    lemma_number(k);
    lemma_trim(d);
    assert(decimal::pow10(0) == 1);
    assert(k * 1 == k);
    lemma_whole(k, 1, 1000, 1000 * k);
}

} // verus!
