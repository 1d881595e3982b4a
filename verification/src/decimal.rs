//! Long decimal numbers, and the number in double precision that is nearest to
//! a fraction.

use crate::quantity;
use crate::quantity::{rounded, P52, P53};
use vstd::prelude::*;

verus! {

/// Ten to a power.
pub open spec fn pow10(n: nat) -> nat
    decreases n,
{
    if n == 0 {
        1
    } else {
        10 * pow10((n - 1) as nat)
    }
}

/// Two to a power.
pub open spec fn pow2(n: nat) -> nat
    decreases n,
{
    if n == 0 {
        1
    } else {
        2 * pow2((n - 1) as nat)
    }
}

/// The number in double precision nearest to `p / q`, as a numerator of 53
/// bits and an exponent of two; of two that are equally near it is the one with
/// an even numerator. The exponent has no bounds.
pub open spec fn near(p: nat, q: nat) -> (nat, int)
    decreases
            (if p >= P53 * q {
                1int
            } else {
                0int
            }),
            (if p >= P53 * q {
                p - q
            } else {
                P53 * q - p
            }),
{
    if p == 0 || q == 0 {
        (0, 0)
    } else if p >= P53 * q {
        let r = near(p, 2 * q);
        (r.0, r.1 + 1)
    } else if p < P52 * q {
        let r = near(2 * p, q);
        (r.0, r.1 - 1)
    } else {
        (quantity::half_even(p, q), 0)
    }
}

pub proof fn lemma_pow2_positive(n: nat)
    ensures
        pow2(n) > 0,
    decreases n,
{
    if n > 0 {
        lemma_pow2_positive((n - 1) as nat);
    }
}

pub proof fn lemma_pow2_add(a: nat, b: nat)
    ensures
        pow2(a + b) == pow2(a) * pow2(b),
    decreases a,
{
    if a > 0 {
        lemma_pow2_add((a - 1) as nat, b);
        let x = pow2((a - 1) as nat);
        let y = pow2(b);
        assert((2 * x) * y == 2 * (x * y)) by (nonlinear_arith);
        assert((a - 1) as nat + b == (a + b - 1) as nat);
    } else {
        assert(1 * pow2(b) == pow2(b));
    }
}

pub proof fn lemma_pow2_rises(a: nat, b: nat)
    requires
        a <= b,
    ensures
        pow2(a) <= pow2(b),
    decreases b,
{
    if a < b {
        lemma_pow2_rises(a, (b - 1) as nat);
    }
}

pub proof fn lemma_pow10_positive(n: nat)
    ensures
        pow10(n) > 0,
    decreases n,
{
    if n > 0 {
        lemma_pow10_positive((n - 1) as nat);
    }
}

/// Where the nearest number in double precision lies.
pub proof fn lemma_near(p: nat, q: nat)
    requires
        p > 0,
        q > 0,
    ensures
        P52 <= near(p, q).0 <= P53,
        p >= P52 * q ==> near(p, q).1 >= 0,
        p < P53 * q ==> near(p, q).1 <= 0,
        near(p, q).1 >= 0 ==> q * pow2(near(p, q).1 as nat) * P52 <= p < q * pow2(
            near(p, q).1 as nat,
        ) * P53,
        near(p, q).1 < 0 ==> q * P52 <= p * pow2((-near(p, q).1) as nat) < q * P53,
    decreases
            (if p >= P53 * q {
                1int
            } else {
                0int
            }),
            (if p >= P53 * q {
                p - q
            } else {
                P53 * q - p
            }),
{
    if p >= P53 * q {
        lemma_near(p, 2 * q);
        let e = near(p, 2 * q).1;
        let x = pow2(e as nat);
        assert(pow2((e + 1) as nat) == 2 * x);
        assert((2 * q) * x == q * (2 * x)) by (nonlinear_arith);
    } else if p < P52 * q {
        lemma_near(2 * p, q);
        let e = near(2 * p, q).1;
        assert(e <= 0);
        if e == 0 {
            reveal_with_fuel(pow2, 2);
            assert(pow2(1) == 2);
            assert(near(p, q).1 == -1);
            assert(q * pow2(0) * P52 == q * P52) by (nonlinear_arith)
                requires
                    pow2(0) == 1,
            ;
            assert(q * pow2(0) * P53 == q * P53) by (nonlinear_arith)
                requires
                    pow2(0) == 1,
            ;
            assert(p * pow2(1) == 2 * p) by (nonlinear_arith)
                requires
                    pow2(1) == 2,
            ;
        } else {
            let x = pow2((-e) as nat);
            assert(pow2((-e + 1) as nat) == 2 * x);
            assert((2 * p) * x == p * (2 * x)) by (nonlinear_arith);
        }
    } else {
        let f = p / q;
        assert(P52 <= f < P53) by (nonlinear_arith)
            requires
                f == p / q,
                q > 0,
                P52 * q <= p < P53 * q,
        ;
        assert(pow2(0) == 1);
        assert(q * 1 == q);
    }
}

/// The digit of a number at a place, counted from the lowest.
pub open spec fn digit_at(s: Seq<u8>, i: int) -> nat {
    if 0 <= i < s.len() {
        s[i] as nat
    } else {
        0
    }
}

/// The number that the `n` lowest digits make.
pub open spec fn low(s: Seq<u8>, n: nat) -> nat
    decreases n,
{
    if n == 0 {
        0
    } else {
        low(s, (n - 1) as nat) + digit_at(s, n - 1) * pow10((n - 1) as nat)
    }
}

/// The number that a list of digits makes, the lowest first.
pub open spec fn number(s: Seq<u8>) -> nat {
    low(s, s.len())
}

/// Are these digits?
pub open spec fn digits_only(s: Seq<u8>) -> bool {
    forall|i: int| 0 <= i < s.len() ==> #[trigger] s[i] < 10
}

pub proof fn lemma_low_bound(s: Seq<u8>, n: nat)
    requires
        digits_only(s),
    ensures
        low(s, n) < pow10(n),
    decreases n,
{
    if n > 0 {
        let m = (n - 1) as nat;
        lemma_low_bound(s, m);
        let d = digit_at(s, m as int);
        let t = pow10(m);
        assert(d * t <= 9 * t) by (nonlinear_arith)
            requires
                d <= 9,
        ;
    }
}

proof fn lemma_low_beyond(s: Seq<u8>, n: nat)
    requires
        n >= s.len(),
    ensures
        low(s, n) == number(s),
    decreases n,
{
    if n > s.len() {
        lemma_low_beyond(s, (n - 1) as nat);
        assert(0 * pow10((n - 1) as nat) == 0);
    }
}

proof fn lemma_low_same(a: Seq<u8>, b: Seq<u8>, n: nat)
    requires
        forall|i: int| 0 <= i < n ==> digit_at(a, i) == #[trigger] digit_at(b, i),
    ensures
        low(a, n) == low(b, n),
    decreases n,
{
    if n > 0 {
        lemma_low_same(a, b, (n - 1) as nat);
        assert(digit_at(a, n - 1) == digit_at(b, n - 1));
    }
}

/// A new lowest digit moves the others up by one place.
proof fn lemma_shift(s: Seq<u8>, d: u8, n: nat)
    ensures
        low(s.insert(0, d), n + 1) == d + 10 * low(s, n),
    decreases n,
{
    let t = s.insert(0, d);
    if n == 0 {
        assert(low(t, 0) == 0);
        assert(low(s, 0) == 0);
        assert(low(t, 1) == low(t, 0) + digit_at(t, 0) * pow10(0));
        assert(digit_at(t, 0) * pow10(0) == digit_at(t, 0)) by (nonlinear_arith)
            requires
                pow10(0) == 1,
        ;
        assert(digit_at(t, 0) == d);
    } else {
        let m = (n - 1) as nat;
        lemma_shift(s, d, m);
        assert(digit_at(t, n as int) == digit_at(s, m as int));
        assert(pow10(n) == 10 * pow10(m));
        let x = digit_at(s, m as int);
        let y = pow10(m);
        assert(x * (10 * y) == 10 * (x * y)) by (nonlinear_arith);
        assert((n + 1 - 1) as nat == n);
    }
}

/// Put a digit at the lowest place.
pub fn append_digit(v: &mut Vec<u8>, d: u8)
    requires
        digits_only(old(v)@),
        d < 10,
    ensures
        digits_only(final(v)@),
        number(final(v)@) == 10 * number(old(v)@) + d,
        final(v)@.len() == old(v)@.len() + 1,
{
    let ghost was = v@;
    v.insert(0, d);
    proof {
        lemma_shift(was, d, was.len());
    }
}

fn digit(v: &Vec<u8>, i: usize) -> (r: u8)
    requires
        digits_only(v@),
    ensures
        r == digit_at(v@, i as int),
        r < 10,
{
    if i < v.len() {
        v[i]
    } else {
        0
    }
}

/// Adding a digit at the highest place.
proof fn lemma_push(s: Seq<u8>, d: u8)
    ensures
        number(s.push(d)) == number(s) + d * pow10(s.len()),
{
    lemma_low_same(s.push(d), s, s.len());
}

/// Twice a number.
pub fn twice(v: &Vec<u8>) -> (r: Vec<u8>)
    requires
        digits_only(v@),
    ensures
        digits_only(r@),
        number(r@) == 2 * number(v@),
{
    let mut r: Vec<u8> = Vec::new();
    let mut carry: u8 = 0;
    let mut i: usize = 0;
    while i < v.len()
        invariant
            i <= v@.len(),
            r@.len() == i,
            digits_only(v@),
            digits_only(r@),
            carry <= 1,
            number(r@) + carry * pow10(i as nat) == 2 * low(v@, i as nat),
        decreases v@.len() - i,
    {
        let t: u8 = 2 * v[i] + carry;
        let ghost was = r@;
        let ghost c0 = carry as nat;
        r.push(t % 10);
        carry = t / 10;
        proof {
            let p = pow10(i as nat);
            let d = v@[i as int] as nat;
            let lo = (t % 10) as nat;
            let hi = (t / 10) as nat;
            lemma_push(was, (t % 10) as u8);
            assert(pow10((i + 1) as nat) == 10 * p);
            assert(lo + 10 * hi == 2 * d + c0);
            assert(lo * p + hi * (10 * p) == 2 * (d * p) + c0 * p) by (nonlinear_arith)
                requires
                    lo + 10 * hi == 2 * d + c0,
            ;
        }
        i = i + 1;
    }
    if carry > 0 {
        let ghost was = r@;
        r.push(carry);
        proof {
            lemma_push(was, carry);
        }
    }
    r
}

/// Is one number at least as large as another?
pub fn at_least(a: &Vec<u8>, b: &Vec<u8>) -> (r: bool)
    requires
        digits_only(a@),
        digits_only(b@),
    ensures
        r == (number(a@) >= number(b@)),
{
    let n: usize = if a.len() > b.len() {
        a.len()
    } else {
        b.len()
    };
    let mut r: bool = true;
    let mut i: usize = 0;
    while i < n
        invariant
            i <= n,
            digits_only(a@),
            digits_only(b@),
            r == (low(a@, i as nat) >= low(b@, i as nat)),
        decreases n - i,
    {
        let x: u8 = digit(a, i);
        let y: u8 = digit(b, i);
        proof {
            lemma_low_bound(a@, i as nat);
            lemma_low_bound(b@, i as nat);
            let p = pow10(i as nat);
            let u = x as nat;
            let w = y as nat;
            assert(u >= w + 1 ==> u * p >= w * p + p) by (nonlinear_arith);
            assert(w >= u + 1 ==> w * p >= u * p + p) by (nonlinear_arith);
        }
        if x > y {
            r = true;
        } else if x < y {
            r = false;
        }
        i = i + 1;
    }
    proof {
        lemma_low_beyond(a@, n as nat);
        lemma_low_beyond(b@, n as nat);
    }
    r
}

/// One number less another.
pub fn minus(a: &Vec<u8>, b: &Vec<u8>) -> (r: Vec<u8>)
    requires
        digits_only(a@),
        digits_only(b@),
        number(a@) >= number(b@),
    ensures
        digits_only(r@),
        number(r@) == number(a@) - number(b@),
{
    let n: usize = if a.len() > b.len() {
        a.len()
    } else {
        b.len()
    };
    let mut r: Vec<u8> = Vec::new();
    let mut borrow: u8 = 0;
    let mut i: usize = 0;
    while i < n
        invariant
            i <= n,
            r@.len() == i,
            digits_only(a@),
            digits_only(b@),
            digits_only(r@),
            borrow <= 1,
            number(r@) + low(b@, i as nat) == low(a@, i as nat) + borrow * pow10(i as nat),
        decreases n - i,
    {
        let x: u8 = digit(a, i);
        let y: u8 = digit(b, i);
        let ghost was = r@;
        let ghost b0 = borrow as nat;
        let take: u8 = y + borrow;
        let d: u8 = if x >= take {
            x - take
        } else {
            10 + x - take
        };
        borrow = if x >= take {
            0
        } else {
            1
        };
        r.push(d);
        proof {
            let p = pow10(i as nat);
            lemma_push(was, d);
            assert(pow10((i + 1) as nat) == 10 * p);
            let (dn, xn, yn, bn) = (d as nat, x as nat, y as nat, borrow as nat);
            assert(dn + yn + b0 == xn + 10 * bn);
            assert(dn * p + yn * p + b0 * p == xn * p + bn * (10 * p)) by (nonlinear_arith)
                requires
                    dn + yn + b0 == xn + 10 * bn,
            ;
        }
        i = i + 1;
    }
    proof {
        lemma_low_beyond(a@, n as nat);
        lemma_low_beyond(b@, n as nat);
        lemma_low_bound(r@, n as nat);
        if borrow == 1 {
            assert(1 * pow10(n as nat) == pow10(n as nat));
        }
        assert(0 * pow10(n as nat) == 0);
    }
    r
}

/// A copy of a number.
fn copy_number(v: &Vec<u8>) -> (r: Vec<u8>)
    ensures
        r@ == v@,
{
    let mut r: Vec<u8> = Vec::new();
    let mut i: usize = 0;
    while i < v.len()
        invariant
            i <= v@.len(),
            r@ == v@.take(i as int),
        decreases v@.len() - i,
    {
        r.push(v[i]);
        proof {
            assert(v@.take(i as int).push(v@[i as int]) =~= v@.take(i + 1));
        }
        i = i + 1;
    }
    proof {
        assert(v@.take(i as int) =~= v@);
    }
    r
}

/// A number times two to the 52nd.
fn raise(v: &Vec<u8>) -> (r: Vec<u8>)
    requires
        digits_only(v@),
    ensures
        digits_only(r@),
        number(r@) == P52 * number(v@),
{
    let mut r: Vec<u8> = copy_number(v);
    let mut k: u32 = 0;
    let ghost n = number(v@);
    proof {
        assert(pow2(0) * n == n) by (nonlinear_arith)
            requires
                pow2(0) == 1,
        ;
    }
    while k < 52
        invariant
            k <= 52,
            digits_only(r@),
            number(r@) == pow2(k as nat) * n,
        decreases 52 - k,
    {
        r = twice(&r);
        proof {
            let x = pow2(k as nat);
            assert(pow2((k + 1) as nat) == 2 * x);
            assert((2 * x) * n == 2 * (x * n)) by (nonlinear_arith);
        }
        k = k + 1;
    }
    proof {
        lemma_p52();
    }
    r
}

pub proof fn lemma_p52()
    ensures
        pow2(52) == P52,
{
    lemma_pow2_add(26, 26);
    lemma_pow2_add(13, 13);
    reveal_with_fuel(pow2, 14);
    assert(pow2(13) == 8192);
    assert(pow2(13) * pow2(13) == 67108864) by (nonlinear_arith)
        requires
            pow2(13) == 8192,
    ;
    assert(pow2(26) * pow2(26) == 4503599627370496) by (nonlinear_arith)
        requires
            pow2(26) == 67108864,
    ;
}

/// The numerator of the nearest number, once it has 53 bits: the division is
/// made bit by bit.
fn divide(p: Vec<u8>, top: &Vec<u8>, Ghost(q): Ghost<nat>) -> (r: u64)
    requires
        digits_only(p@),
        digits_only(top@),
        q > 0,
        number(top@) == P52 * q,
        P52 * q <= number(p@) < P53 * q,
    ensures
        r == quantity::half_even(number(p@), q),
{
    let ghost n = number(p@);
    let ghost t = number(top@);
    let mut rest: Vec<u8> = p;
    let mut f: u64 = 0;
    let mut k: u32 = 0;
    proof {
        lemma_p52();
    }
    while k < 53
        invariant
            k <= 53,
            digits_only(rest@),
            digits_only(top@),
            t == number(top@),
            t > 0,
            n < 2 * t,
            f < pow2(k as nat),
            k == 0 ==> f == 0 && number(rest@) == n,
            k > 0 ==> number(rest@) < t && n * pow2((k - 1) as nat) == f * t + number(rest@),
        decreases 53 - k,
    {
        let ghost f0 = f as nat;
        let ghost r0 = number(rest@);
        proof {
            lemma_pow2_rises(k as nat, 53);
            lemma_pow2_add(52, 1);
            lemma_p52();
            reveal_with_fuel(pow2, 2);
            assert(pow2((k + 1) as nat) == 2 * pow2(k as nat));
        }
        if k > 0 {
            rest = twice(&rest);
            proof {
                let x = pow2((k - 1) as nat);
                assert(pow2(k as nat) == 2 * x);
                assert(n * (2 * x) == 2 * (n * x)) by (nonlinear_arith);
                assert((2 * f0) * t == 2 * (f0 * t)) by (nonlinear_arith);
            }
        } else {
            proof {
                assert(n * pow2(0) == n) by (nonlinear_arith)
                    requires
                        pow2(0) == 1,
                ;
                assert((2 * f0) * t == 0) by (nonlinear_arith)
                    requires
                        f0 == 0,
                ;
            }
        }
        proof {
            assert(n * pow2(k as nat) == (2 * f0) * t + number(rest@));
            assert((2 * f0 + 1) * t == (2 * f0) * t + t) by (nonlinear_arith);
        }
        if at_least(&rest, top) {
            rest = minus(&rest, top);
            f = 2 * f + 1;
        } else {
            f = 2 * f;
        }
        k = k + 1;
    }
    let ghost r1 = number(rest@);
    proof {
        lemma_quotient(n, q, f as nat, r1);
        lemma_pow2_add(52, 1);
        reveal_with_fuel(pow2, 2);
    }
    let doubled: Vec<u8> = twice(&rest);
    let over: bool = !at_least(top, &doubled);
    let under: bool = !at_least(&doubled, top);
    if under || (!over && f % 2 == 0) {
        f
    } else {
        f + 1
    }
}

/// The quotient and remainder out of the long division.
proof fn lemma_quotient(n: nat, q: nat, f: nat, rest: nat)
    requires
        q > 0,
        n * P52 == f * (P52 * q) + rest,
        rest < P52 * q,
    ensures
        n / q == f,
        rest == P52 * (n % q),
{
    let d = n / q;
    let m = n % q;
    assert(n == d * q + m && m < q) by (nonlinear_arith)
        requires
            d == n / q,
            m == n % q,
            q > 0,
    ;
    assert(n * P52 == d * (P52 * q) + P52 * m) by (nonlinear_arith)
        requires
            n == d * q + m,
    ;
    let t = P52 * q;
    assert(P52 * m < t) by (nonlinear_arith)
        requires
            m < q,
            t == P52 * q,
    ;
    assert(d == f) by (nonlinear_arith)
        requires
            d * t + P52 * m == f * t + rest,
            0 <= P52 * m < t,
            0 <= rest < t,
    ;
}

pub proof fn lemma_pow10_add(a: nat, b: nat)
    ensures
        pow10(a + b) == pow10(a) * pow10(b),
    decreases a,
{
    if a > 0 {
        lemma_pow10_add((a - 1) as nat, b);
        let x = pow10((a - 1) as nat);
        let y = pow10(b);
        assert((10 * x) * y == 10 * (x * y)) by (nonlinear_arith);
        assert((a - 1) as nat + b == (a + b - 1) as nat);
    } else {
        assert(1 * pow10(b) == pow10(b));
    }
}

pub proof fn lemma_pow10_rises(a: nat, b: nat)
    requires
        a <= b,
    ensures
        pow10(a) <= pow10(b),
    decreases b,
{
    if a < b {
        lemma_pow10_rises(a, (b - 1) as nat);
    }
}

/// Ten is between two to the third and two to the fourth.
pub proof fn lemma_pow10_pow2(n: nat)
    ensures
        pow2(3 * n) <= pow10(n) <= pow2(4 * n),
    decreases n,
{
    if n > 0 {
        let m = (n - 1) as nat;
        lemma_pow10_pow2(m);
        lemma_pow2_add(3, 3 * m);
        lemma_pow2_add(4, 4 * m);
        reveal_with_fuel(pow2, 5);
        assert(3 + 3 * m == 3 * n);
        assert(4 + 4 * m == 4 * n);
    }
}

/// The nearest number in double precision to a fraction of two long numbers
/// that is neither too large nor too small.
pub fn nearest_long(p: Vec<u8>, q: &Vec<u8>) -> (r: (u64, i64))
    requires
        digits_only(p@),
        digits_only(q@),
        number(p@) > 0,
        number(q@) > 0,
        number(p@) < number(q@) * pow10(40),
        number(q@) <= number(p@) * pow10(41),
    ensures
        near(number(p@), number(q@)) == (r.0 as nat, r.1 as int),
        P52 <= r.0 <= P53,
        -300 < r.1 < 300,
{
    let ghost p0 = number(p@);
    let ghost q0 = number(q@);
    let ghost mut q1: nat = q0;
    let mut top: Vec<u8> = raise(q);
    let mut e: i64 = 0;
    proof {
        lemma_pow10_pow2(40);
        lemma_pow10_pow2(41);
        assert(p0 < q0 * pow2(160)) by (nonlinear_arith)
            requires
                p0 < q0 * pow10(40),
                pow10(40) <= pow2(160),
                q0 > 0,
        ;
        assert(q0 <= p0 * pow2(164)) by (nonlinear_arith)
            requires
                q0 <= p0 * pow10(41),
                pow10(41) <= pow2(164),
                p0 > 0,
        ;
        assert(q0 * pow2(0) == q0) by (nonlinear_arith)
            requires
                pow2(0) == 1,
        ;
    }
    let mut ceiling: Vec<u8> = twice(&top);
    while at_least(&p, &ceiling)
        invariant
            digits_only(p@),
            digits_only(top@),
            digits_only(ceiling@),
            p0 == number(p@),
            p0 > 0,
            q0 > 0,
            q1 > 0,
            0 <= e <= 160,
            number(top@) == P52 * q1,
            number(ceiling@) == P53 * q1,
            q1 == q0 * pow2(e as nat),
            p0 < q0 * pow2(160),
            near(p0, q0) == (near(p0, q1).0, near(p0, q1).1 + e),
            e > 0 ==> p0 >= P52 * q1,
        decreases p0 - q1,
    {
        proof {
            if e >= 160 {
                lemma_pow2_rises(160, e as nat);
                assert(q0 * pow2(160) <= q0 * pow2(e as nat)) by (nonlinear_arith)
                    requires
                        pow2(160) <= pow2(e as nat),
                        q0 > 0,
                ;
                assert(false);
            }
            let x = pow2(e as nat);
            assert(pow2((e + 1) as nat) == 2 * x);
            assert(q0 * (2 * x) == 2 * (q0 * x)) by (nonlinear_arith);
            q1 = 2 * q1;
        }
        top = twice(&top);
        ceiling = twice(&ceiling);
        e = e + 1;
    }
    let ghost mut p1: nat = p0;
    let mut num: Vec<u8> = p;
    let mut k: i64 = 0;
    proof {
        assert(p0 * pow2(0) == p0) by (nonlinear_arith)
            requires
                pow2(0) == 1,
        ;
    }
    while !at_least(&num, &top)
        invariant
            digits_only(num@),
            digits_only(top@),
            p1 == number(num@),
            p0 > 0,
            q0 > 0,
            q1 > 0,
            p1 > 0,
            0 <= k <= 216,
            k > 0 ==> e == 0,
            0 <= e <= 160,
            e == 0 ==> q1 == q0,
            e > 0 ==> p1 >= P52 * q1,
            number(top@) == P52 * q1,
            p1 == p0 * pow2(k as nat),
            p1 < P53 * q1,
            q0 <= p0 * pow2(164),
            near(p0, q0) == (near(p1, q1).0, near(p1, q1).1 + e - k),
        decreases P53 * q1 - p1,
    {
        proof {
            if k >= 216 {
                lemma_pow2_rises(216, k as nat);
                lemma_pow2_add(52, 164);
                lemma_p52();
                assert(false) by (nonlinear_arith)
                    requires
                        p0 * pow2(k as nat) < P52 * q0,
                        q0 <= p0 * pow2(164),
                        pow2(216) == P52 * pow2(164),
                        pow2(216) <= pow2(k as nat),
                        p0 > 0,
                ;
            }
            let x = pow2(k as nat);
            assert(pow2((k + 1) as nat) == 2 * x);
            assert(p0 * (2 * x) == 2 * (p0 * x)) by (nonlinear_arith);
            p1 = 2 * p1;
        }
        num = twice(&num);
        k = k + 1;
    }
    let m: u64 = divide(num, &top, Ghost(q1));
    proof {
        lemma_near(p1, q1);
    }
    (m, e - k)
}

/// The nearest number in double precision to a fraction of small numbers.
pub fn nearest_short(p: u128, q: u128) -> (r: (u64, i64))
    requires
        0 < p <= 0x2_0000_0000_0000_0000_0000_0000_0000,
        0 < q <= 1_000_000,
    ensures
        near(p as nat, q as nat) == (r.0 as nat, r.1 as int),
        P52 <= r.0 <= P53,
        -100 <= r.1 <= 100,
{
    let mut a: u128 = p;
    let mut b: u128 = q;
    let mut e: i64 = 0;
    proof {
        assert(q * pow2(0) == q) by (nonlinear_arith)
            requires
                pow2(0) == 1,
        ;
    }
    while a >= P53 * b
        invariant
            a == p,
            0 < p <= 0x2_0000_0000_0000_0000_0000_0000_0000,
            0 < q <= 1_000_000,
            0 <= e <= 64,
            b == q * pow2(e as nat),
            0 < b <= 0x2000_0000_0000_0000,
            near(p as nat, q as nat) == (
                near(a as nat, b as nat).0,
                near(a as nat, b as nat).1 + e,
            ),
            e > 0 ==> a >= P52 * b,
        decreases a - b,
    {
        proof {
            let x = pow2(e as nat);
            assert(pow2((e + 1) as nat) == 2 * x);
            assert(q * (2 * x) == 2 * (q * x)) by (nonlinear_arith);
            if e >= 64 {
                lemma_pow2_rises(64, e as nat);
                lemma_p52();
                lemma_pow2_rises(52, 64);
                lemma_pow2_add(52, 12);
                reveal_with_fuel(pow2, 13);
                assert(pow2(12) == 4096);
                assert(pow2(64) == P52 * 4096);
                assert(b >= P52 * 4096) by (nonlinear_arith)
                    requires
                        b == q * pow2(e as nat),
                        pow2(e as nat) >= P52 * 4096,
                        q >= 1,
                ;
                assert(false);
            }
        }
        b = 2 * b;
        e = e + 1;
    }
    let mut k: i64 = 0;
    let ghost b0 = b;
    while a < P52 * b
        invariant
            0 < a < P53 * b,
            0 < b <= 0x2000_0000_0000_0000,
            0 <= k <= 80,
            0 <= e <= 64,
            k > 0 ==> e == 0,
            e == 0 ==> b <= 1_000_000,
            e > 0 ==> a >= P52 * b,
            a >= pow2(k as nat),
            near(p as nat, q as nat) == (
                near(a as nat, b as nat).0,
                near(a as nat, b as nat).1 + e - k,
            ),
        decreases P53 * b - a,
    {
        proof {
            assert(pow2((k + 1) as nat) == 2 * pow2(k as nat));
            if k >= 80 {
                lemma_pow2_rises(80, k as nat);
                lemma_p52();
                lemma_pow2_add(52, 28);
                lemma_pow2_add(14, 14);
                reveal_with_fuel(pow2, 15);
                assert(pow2(14) == 16384);
                assert(pow2(14) * pow2(14) == 268435456) by (nonlinear_arith)
                    requires
                        pow2(14) == 16384,
                ;
                assert(pow2(80) == P52 * 268435456);
                assert(false);
            }
        }
        a = 2 * a;
        k = k + 1;
    }
    proof {
        lemma_near(a as nat, b as nat);
    }
    let m: u128 = rounded(a, b);
    (m as u64, e - k)
}

} // verus!
