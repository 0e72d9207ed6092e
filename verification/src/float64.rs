//! Double precision numbers as pairs of integers: rounding a fraction to the
//! nearest double, and printing a double with a fixed number of decimals.
//!
//! A finite double that is not negative is `mantissa * 2^(unit - 1074)`, with
//! a mantissa under 2^53 and, unless the unit is the smallest one, of at least
//! 2^52.

use vstd::prelude::*;
use vstd::arithmetic::{div_mod, power, power2};
use crate::number;

verus! {

/// The exponent of the smallest positive double.
pub open spec fn smallest() -> nat {
    1074
}

/// The largest unit of a finite double.
pub const MAX_UNIT: u32 = 2045;

/// 2^52.
pub const TWO_52: u64 = 4_503_599_627_370_496;

/// 2^53.
pub const TWO_53: u64 = 9_007_199_254_740_992;

/// The fraction `a / b` rounded to the nearest integer, a tie to the even one.
pub open spec fn half_even(a: nat, b: nat) -> nat {
    let q = a / b;
    let r = a % b;
    if 2 * r < b {
        q
    } else if 2 * r > b {
        q + 1
    } else if q % 2 == 0 {
        q
    } else {
        q + 1
    }
}

/// The fraction `a / b` rounded to the nearest integer, a tie upwards.
pub open spec fn half_up(a: nat, b: nat) -> nat {
    (2 * a + b) / (2 * b)
}

/// Whether `num / den`, counted in units of `2^(k - 1074)`, has the magnitude
/// of a mantissa.
pub open spec fn unit_fits(num: nat, den: nat, k: nat) -> bool {
    &&& num * power2::pow2(smallest()) < den * power2::pow2(k) * power2::pow2(53)
    &&& k == 0 || num * power2::pow2(smallest()) >= den * power2::pow2(k) * power2::pow2(52)
}

/// The unit of the double nearest to `num / den`, before rounding.
pub open spec fn unit_of(num: nat, den: nat) -> nat {
    choose|k: nat| unit_fits(num, den, k)
}

/// Mantissa and unit of the double nearest to `num / den`, a tie to the even
/// mantissa. A unit above `MAX_UNIT` stands for infinity.
pub open spec fn nearest(num: nat, den: nat) -> (nat, nat) {
    let k = unit_of(num, den);
    let m = half_even(num * power2::pow2(smallest()), den * power2::pow2(k));
    if m == power2::pow2(53) {
        (power2::pow2(52), k + 1)
    } else {
        (m, k)
    }
}

/// The values of the two powers of two that bound a mantissa.
pub proof fn lemma_bounds()
    ensures
        power2::pow2(52) == TWO_52,
        power2::pow2(53) == TWO_53,
        power2::pow2(0) == 1,
{
    power2::lemma2_to64();
    power2::lemma2_to64_rest();
}

/// Doubling a power of two.
pub proof fn lemma_pow2_next(k: nat)
    ensures
        power2::pow2(k + 1) == 2 * power2::pow2(k),
        power2::pow2(k) >= 1,
{
    power2::lemma_pow2_unfold(k + 1);
    power2::lemma_pow2_pos(k);
}

/// Powers of two grow with the exponent.
pub proof fn lemma_pow2_monotone(a: nat, b: nat)
    requires
        a <= b,
    ensures
        power2::pow2(a) <= power2::pow2(b),
    decreases b - a,
{
    if a < b {
        lemma_pow2_next((b - 1) as nat);
        lemma_pow2_monotone(a, (b - 1) as nat);
    }
}

/// A power of two exceeds its exponent.
pub proof fn lemma_pow2_exceeds(k: nat)
    ensures
        power2::pow2(k) > k,
    decreases k,
{
    if k == 0 {
        lemma_bounds();
    } else {
        lemma_pow2_exceeds((k - 1) as nat);
        lemma_pow2_next((k - 1) as nat);
    }
}

/// At most one unit fits a fraction.
pub proof fn lemma_unit_unique(num: nat, den: nat, a: nat, b: nat)
    requires
        unit_fits(num, den, a),
        unit_fits(num, den, b),
    ensures
        a == b,
{
    if a < b {
        lemma_unit_less(num, den, a, b);
    } else if b < a {
        lemma_unit_less(num, den, b, a);
    }
}

/// A fraction below the mantissa bound of one unit does not reach the
/// smallest mantissa of a larger unit.
proof fn lemma_unit_less(num: nat, den: nat, a: nat, b: nat)
    requires
        num * power2::pow2(smallest()) < den * power2::pow2(a) * power2::pow2(53),
        a < b,
    ensures
        num * power2::pow2(smallest()) < den * power2::pow2(b) * power2::pow2(52),
{
    lemma_bounds();
    lemma_pow2_next(a);
    lemma_pow2_monotone(a + 1, b);
    let pa = power2::pow2(a);
    let pb = power2::pow2(b);
    assert(den * pb * power2::pow2(52) >= den * pa * power2::pow2(53)) by (nonlinear_arith)
        requires
            pb >= 2 * pa,
            power2::pow2(53) == 2 * power2::pow2(52),
    ;
}

/// Some unit fits every fraction.
pub proof fn lemma_unit_exists(num: nat, den: nat)
    requires
        den > 0,
    ensures
        unit_fits(num, den, unit_of(num, den)),
{
    lemma_unit_exists_from(num, den, 0);
}

proof fn lemma_unit_exists_from(num: nat, den: nat, k: nat)
    requires
        den > 0,
        k == 0 || num * power2::pow2(smallest()) >= den * power2::pow2(k) * power2::pow2(52),
    ensures
        unit_fits(num, den, unit_of(num, den)),
    decreases num * power2::pow2(smallest()) + 1 - k,
{
    let a = num * power2::pow2(smallest());
    if a < den * power2::pow2(k) * power2::pow2(53) {
        assert(unit_fits(num, den, k));
    } else {
        lemma_pow2_exceeds(k);
        lemma_bounds();
        lemma_pow2_next(k);
        let p = power2::pow2(k);
        assert(den * p * power2::pow2(53) > k) by (nonlinear_arith)
            requires
                den >= 1,
                p > k,
                power2::pow2(53) >= 1,
        ;
        assert(den * power2::pow2(k + 1) * power2::pow2(52) == den * p * power2::pow2(53)) by (nonlinear_arith)
            requires
                power2::pow2(k + 1) == 2 * p,
                power2::pow2(53) == 2 * power2::pow2(52),
        ;
        lemma_unit_exists_from(num, den, k + 1);
    }
}

/// The one unit that fits is the unit of the fraction.
pub proof fn lemma_unit_is(num: nat, den: nat, k: nat)
    requires
        unit_fits(num, den, k),
    ensures
        unit_of(num, den) == k,
{
    assert(unit_fits(num, den, unit_of(num, den)));
    lemma_unit_unique(num, den, k, unit_of(num, den));
}

/// Equal fractions round to the same integer.
pub proof fn lemma_half_even_same(a: nat, b: nat, c: nat, d: nat)
    requires
        b > 0,
        d > 0,
        a * d == c * b,
    ensures
        half_even(a, b) == half_even(c, d),
        a / b == c / d,
{
    let q = a / b;
    let r = a % b;
    let s = c / d;
    let t = c % d;
    div_mod::lemma_fundamental_div_mod(a as int, b as int);
    div_mod::lemma_fundamental_div_mod(c as int, d as int);
    assert((q * b + r) * d == (s * d + t) * b);
    assert(q * (b * d) + r * d == s * (b * d) + t * b) by (nonlinear_arith)
        requires
            (q * b + r) * d == (s * d + t) * b,
    ;
    assert(0 <= r * d < b * d) by (nonlinear_arith)
        requires
            0 <= r < b,
            d > 0,
    ;
    assert(0 <= t * b < b * d) by (nonlinear_arith)
        requires
            0 <= t < d,
            b > 0,
    ;
    let n = b * d;
    assert(q == s) by (nonlinear_arith)
        requires
            q * n + r * d == s * n + t * b,
            0 <= r * d < n,
            0 <= t * b < n,
    ;
    assert(r * d == t * b);
    assert((2 * r < b) == (2 * t < d)) by (nonlinear_arith)
        requires
            r * d == t * b,
            b > 0,
            d > 0,
    ;
    assert((2 * r > b) == (2 * t > d)) by (nonlinear_arith)
        requires
            r * d == t * b,
            b > 0,
            d > 0,
    ;
}

/// The number that digits write in base ten, the lowest one first.
pub open spec fn low_first_value(s: Seq<u8>) -> nat
    decreases s.len(),
{
    if s.len() == 0 {
        0
    } else {
        low_first_value(s.drop_last()) + s.last() as nat * tens((s.len() - 1) as nat)
    }
}

/// A power of ten.
pub open spec fn tens(n: nat) -> nat {
    power::pow(10, n) as nat
}

/// Whether every element is a decimal digit.
pub open spec fn are_digits(s: Seq<u8>) -> bool {
    forall|i: int| 0 <= i < s.len() ==> (#[trigger] s[i]) < 10
}

/// Multiplying a power of ten by ten.
pub proof fn lemma_tens_next(n: nat)
    ensures
        tens(n + 1) == 10 * tens(n),
        tens(n) >= 1,
        tens(0) == 1,
{
    reveal(power::pow);
    power::lemma_pow_positive(10, n);
}

/// Powers of ten multiply by adding the exponents.
pub proof fn lemma_tens_add(a: nat, b: nat)
    ensures
        tens(a + b) == tens(a) * tens(b),
{
    power::lemma_pow_adds(10, a, b);
    power::lemma_pow_positive(10, a);
    power::lemma_pow_positive(10, b);
}

/// Larger exponents give larger powers of ten.
pub proof fn lemma_tens_monotone(a: nat, b: nat)
    requires
        a <= b,
    ensures
        tens(a) <= tens(b),
{
    lemma_tens_add(a, (b - a) as nat);
    lemma_tens_next(a);
    lemma_tens_next((b - a) as nat);
    let x = tens(a);
    let y = tens((b - a) as nat);
    assert(x <= x * y) by (nonlinear_arith)
        requires
            y >= 1,
    ;
}

/// Digits write less than the power of ten of their number.
proof fn lemma_low_first_bound(s: Seq<u8>)
    requires
        are_digits(s),
    ensures
        low_first_value(s) < tens(s.len()),
    decreases s.len(),
{
    lemma_tens_next(0);
    if s.len() > 0 {
        let t = s.drop_last();
        assert(are_digits(t)) by {
            assert forall|i: int| 0 <= i < t.len() implies (#[trigger] t[i]) < 10 by {
                assert(t[i] == s[i]);
            }
        }
        lemma_low_first_bound(t);
        lemma_tens_next((s.len() - 1) as nat);
        let p = tens((s.len() - 1) as nat);
        let d = s.last() as nat;
        assert(d * p <= 9 * p) by (nonlinear_arith)
            requires
                d <= 9,
        ;
    }
}

/// The digits below and above a position write the number together.
proof fn lemma_low_first_split(s: Seq<u8>, p: int)
    requires
        0 <= p <= s.len(),
    ensures
        low_first_value(s) == low_first_value(s.take(p)) + tens(p as nat) * low_first_value(
            s.skip(p),
        ),
    decreases s.len(),
{
    if s.len() == p {
        assert(s.take(p) =~= s);
        assert(s.skip(p) =~= Seq::<u8>::empty());
        assert(low_first_value(s.skip(p)) == 0);
        assert(tens(p as nat) * 0 == 0);
    } else {
        let t = s.drop_last();
        lemma_low_first_split(t, p);
        assert(t.take(p) =~= s.take(p));
        assert(s.skip(p).drop_last() =~= t.skip(p));
        assert(s.skip(p).last() == s.last());
        let high = (s.len() - 1 - p) as nat;
        lemma_tens_add(p as nat, high);
        let d = s.last() as nat;
        let a = low_first_value(t.skip(p));
        let x = tens(p as nat);
        let y = tens(high);
        assert(low_first_value(s.skip(p)) == a + d * y);
        assert(x * (a + d * y) == x * a + d * (x * y)) by (nonlinear_arith);
        assert(tens((s.len() - 1) as nat) == x * y);
    }
}

/// The lowest digit and the rest write the number together.
pub proof fn lemma_low_first_head(s: Seq<u8>)
    requires
        s.len() > 0,
    ensures
        low_first_value(s) == s[0] as nat + 10 * low_first_value(s.skip(1)),
{
    lemma_low_first_split(s, 1);
    let h = s.take(1);
    assert(h.drop_last() =~= Seq::<u8>::empty());
    lemma_tens_next(0);
    assert(tens(1) == 10);
    assert(low_first_value(h.drop_last()) == 0);
    assert(low_first_value(h) == low_first_value(h.drop_last()) + h.last() as nat * tens(0));
    assert(h.last() as nat * 1 == s[0] as nat);
}

/// A digit added on top.
pub proof fn lemma_low_first_push(s: Seq<u8>, d: u8)
    ensures
        low_first_value(s.push(d)) == low_first_value(s) + d as nat * tens(s.len()),
{
    assert(s.push(d).drop_last() =~= s);
}

/// The digits of a number times a small factor; one digit more than before.
pub(crate) fn times(digits: &Vec<u8>, factor: u8) -> (r: Vec<u8>)
    requires
        are_digits(digits@),
        1 <= factor <= 9,
    ensures
        are_digits(r@),
        r@.len() == digits@.len() + 1,
        low_first_value(r@) == factor * low_first_value(digits@),
{
    let mut out: Vec<u8> = Vec::new();
    let mut carry: u8 = 0;
    let mut i: usize = 0;
    proof {
        assert(digits@.take(0) =~= Seq::<u8>::empty());
        assert(low_first_value(digits@.take(0)) == 0);
        assert(factor * 0 == 0);
        assert(0 * tens(0) == 0);
    }
    while i < digits.len()
        invariant
            i <= digits@.len(),
            are_digits(digits@),
            are_digits(out@),
            out@.len() == i,
            1 <= factor <= 9,
            carry < 9,
            low_first_value(out@) + carry as nat * tens(i as nat) == factor * low_first_value(
                digits@.take(i as int),
            ),
        decreases digits@.len() - i,
    {
        let d: u8 = digits[i];
        assert((factor as int) * (d as int) <= 81) by (nonlinear_arith)
            requires
                0 <= factor <= 9,
                0 <= d <= 9,
        ;
        let x: u8 = factor * d + carry;
        let low: u8 = x % 10;
        let ghost before = out@;
        let ghost old_carry = carry;
        out.push(low);
        carry = x / 10;
        proof {
            lemma_low_first_push(before, low);
            assert(digits@.take(i + 1).drop_last() =~= digits@.take(i as int));
            lemma_tens_next(i as nat);
            let t = tens(i as nat);
            let v = low_first_value(digits@.take(i as int));
            let fv = low_first_value(before);
            assert(low_first_value(digits@.take(i + 1)) == v + d as nat * t);
            assert(fv + low as nat * t + carry as nat * (10 * t) == factor * (v + d as nat * t))
                by (nonlinear_arith)
                requires
                    fv + old_carry as nat * t == factor * v,
                    x == factor * d + old_carry,
                    x == 10 * carry + low,
            ;
            assert(are_digits(out@)) by {
                assert forall|j: int| 0 <= j < out@.len() implies (#[trigger] out@[j]) < 10 by {
                    if j < i {
                        assert(out@[j] == before[j]);
                    }
                }
            }
        }
        i = i + 1;
    }
    let ghost before = out@;
    out.push(carry);
    proof {
        lemma_low_first_push(before, carry);
        assert(digits@.take(i as int) =~= digits@);
    }
    out
}

/// The quotient of the number by a power of ten, or `None` where that is 2^60
/// or more.
fn whole_part(digits: &Vec<u8>, p: u128) -> (r: Option<u64>)
    requires
        are_digits(digits@),
    ensures
        is_whole(r, low_first_value(digits@) / tens(p as nat)),
{
    if p >= digits.len() as u128 {
        proof {
            lemma_low_first_bound(digits@);
            lemma_tens_monotone(digits@.len(), p as nat);
            div_mod::lemma_basic_div(low_first_value(digits@) as int, tens(p as nat) as int);
        }
        return Some(0);
    }
    let p: usize = p as usize;
    proof {
        lemma_whole(digits@, p as int);
    }
    let mut i: usize = digits.len();
    let mut value: u64 = 0;
    let mut large: bool = false;
    assert(digits@.skip(i as int) =~= Seq::<u8>::empty());
    while i > p
        invariant
            p <= i <= digits@.len(),
            are_digits(digits@),
            large ==> low_first_value(digits@.skip(i as int)) >= 1_152_921_504_606_846_976,
            !large ==> value == low_first_value(digits@.skip(i as int)) && value
                < 1_152_921_504_606_846_976,
        decreases i,
    {
        proof {
            let t = digits@.skip(i - 1);
            lemma_low_first_head(t);
            assert(t.skip(1) =~= digits@.skip(i as int));
            assert(t[0] == digits@[i - 1]);
        }
        i = i - 1;
        if !large {
            value = value * 10 + digits[i] as u64;
            if value >= 1_152_921_504_606_846_976 {
                large = true;
            }
        }
    }
    if large {
        None
    } else {
        Some(value)
    }
}

/// Whether the digits below position `p` are all zero.
fn zero_below(digits: &Vec<u8>, p: usize) -> (r: bool)
    requires
        p <= digits@.len(),
    ensures
        r == (low_first_value(digits@.take(p as int)) == 0),
{
    let mut i: usize = 0;
    while i < p
        invariant
            i <= p <= digits@.len(),
            low_first_value(digits@.take(i as int)) == 0,
        decreases p - i,
    {
        proof {
            assert(digits@.take(i + 1).drop_last() =~= digits@.take(i as int));
            lemma_tens_next(i as nat);
            let t = tens(i as nat);
            let d = digits@[i as int] as nat;
            assert(d > 0 ==> d * t > 0) by (nonlinear_arith)
                requires
                    t >= 1,
            ;
            assert(0 * t == 0);
            assert(low_first_value(digits@.take(i + 1)) == low_first_value(digits@.take(i as int))
                + d * t);
        }
        if digits[i] != 0 {
            proof {
                lemma_low_first_split(digits@.take(p as int), i + 1);
                assert(digits@.take(p as int).take(i + 1) =~= digits@.take(i + 1));
            }
            return false;
        }
        i = i + 1;
    }
    true
}

/// How the remainder by a power of ten compares with half of that power: -1
/// for less, 0 for equal, 1 for more.
fn compare_half(digits: &Vec<u8>, p: u128) -> (r: i8)
    requires
        are_digits(digits@),
    ensures
        ({
            let low = low_first_value(digits@) % tens(p as nat);
            &&& r == -1 <==> 2 * low < tens(p as nat)
            &&& r == 1 <==> 2 * low > tens(p as nat)
            &&& -1 <= r <= 1
        }),
{
    proof {
        lemma_tens_next(0);
    }
    if p == 0 {
        return -1;
    }
    if p > digits.len() as u128 {
        proof {
            lemma_low_first_bound(digits@);
            lemma_tens_monotone(digits@.len(), (p - 1) as nat);
            lemma_tens_next((p - 1) as nat);
            div_mod::lemma_small_mod(low_first_value(digits@), tens(p as nat));
        }
        return -1;
    }
    let p: usize = p as usize;
    let d: u8 = digits[p - 1];
    proof {
        lemma_whole(digits@, p as int);
        let t = digits@.take(p as int);
        assert(t.drop_last() =~= digits@.take(p - 1));
        assert(are_digits(t.drop_last())) by {
            assert forall|i: int| 0 <= i < p - 1 implies (#[trigger] t.drop_last()[i]) < 10 by {
                assert(t.drop_last()[i] == digits@[i]);
            }
        }
        lemma_low_first_bound(t.drop_last());
        lemma_tens_next((p - 1) as nat);
        let x = tens((p - 1) as nat);
        let dn = d as nat;
        assert(tens(p as nat) == 10 * x);
        assert(low_first_value(t) == low_first_value(t.drop_last()) + dn * x);
        assert(dn == 5 ==> dn * x == 5 * x);
        assert(dn <= 4 ==> dn * x <= 4 * x) by (nonlinear_arith)
            requires
                x >= 1,
        ;
        assert(dn >= 6 ==> dn * x >= 6 * x) by (nonlinear_arith)
            requires
                x >= 1,
        ;
    }
    if d < 5 {
        -1
    } else if d > 5 {
        1
    } else if zero_below(digits, p - 1) {
        0
    } else {
        1
    }
}

/// A finite double that is not negative: `mantissa * 2^(unit - 1074)`.
#[derive(Debug, Clone, Copy, PartialEq, Eq, Structural)]
pub struct Float64 {
    pub mantissa: u64,
    pub unit: u32,
}

impl Float64 {
    /// Every double has exactly one such pair.
    pub open spec fn wf(self) -> bool {
        &&& self.mantissa < TWO_53
        &&& self.unit <= MAX_UNIT
        &&& self.unit == 0 || self.mantissa >= TWO_52
    }

    /// The value times 2^1074.
    pub open spec fn scaled(self) -> nat {
        self.mantissa as nat * power2::pow2(self.unit as nat)
    }
}

/// Whether a result is the double nearest to a fraction, with `None` for
/// infinity.
pub open spec fn is_nearest(r: Option<Float64>, num: nat, den: nat) -> bool {
    let n = nearest(num, den);
    match r {
        Some(x) => x.wf() && x.mantissa == n.0 && x.unit == n.1,
        None => n.1 > MAX_UNIT,
    }
}

/// Equal fractions lie on the same side of an integer.
proof fn lemma_same_side(n: nat, t: nat, a: nat, b: nat, x: nat)
    requires
        n * b == a * t,
        b > 0,
        t > 0,
    ensures
        (n < t * x) == (a < b * x),
{
    if n < t * x {
        assert(a < b * x) by (nonlinear_arith)
            requires
                n * b == a * t,
                b > 0,
                t > 0,
                n < t * x,
        ;
    } else {
        assert(a >= b * x) by (nonlinear_arith)
            requires
                n * b == a * t,
                b > 0,
                t > 0,
                n >= t * x,
        ;
    }
}

/// A fraction that reaches the mantissa bound of a unit has a larger unit.
pub proof fn lemma_unit_above(num: nat, den: nat, k: nat)
    requires
        den > 0,
        num * power2::pow2(smallest()) >= den * power2::pow2(k) * power2::pow2(53),
    ensures
        unit_of(num, den) > k,
        nearest(num, den).1 > k,
{
    lemma_unit_exists(num, den);
    let u = unit_of(num, den);
    if u <= k {
        lemma_pow2_monotone(u, k);
        let x = power2::pow2(u);
        let y = power2::pow2(k);
        let z = power2::pow2(53);
        assert(den * x * z <= den * y * z) by (nonlinear_arith)
            requires
                x <= y,
        ;
    }
}

/// The double with the given rounded mantissa, before a carry into the next
/// unit, or `None` where it is infinite.
pub(crate) fn from_rounded(m: u64, k: u32) -> (r: Option<Float64>)
    requires
        m <= TWO_53,
        k == 0 || m >= TWO_52,
        k <= 10_000,
    ensures
        ({
            let pair: (nat, nat) = if m == TWO_53 {
                (TWO_52 as nat, (k + 1) as nat)
            } else {
                (m as nat, k as nat)
            };
            match r {
                Some(x) => x.wf() && x.mantissa == pair.0 && x.unit == pair.1,
                None => pair.1 > MAX_UNIT,
            }
        }),
{
    let (mantissa, unit): (u64, u32) = if m == TWO_53 {
        (TWO_52, k + 1)
    } else {
        (m, k)
    };
    if unit > MAX_UNIT {
        None
    } else {
        Some(Float64 { mantissa, unit })
    }
}

/// The double nearest to the number that decimal digits write, the lowest
/// first, with `p` of them behind the point.
pub fn nearest_decimal(digits: Vec<u8>, p: u128) -> (r: Option<Float64>)
    requires
        are_digits(digits@),
        p <= 0x10_0000_0000_0000_0000_0000_0000,
    ensures
        is_nearest(r, low_first_value(digits@), tens(p as nat)),
{
    let ghost num = low_first_value(digits@);
    let ghost den = tens(p as nat);
    let ghost a = num * power2::pow2(smallest());
    let mut d: Vec<u8> = digits;
    let mut point: u128 = p;
    let mut k: u32 = 1074;
    proof {
        lemma_tens_next(p as nat);
        lemma_bounds();
        let z = power2::pow2(1074);
        assert(num * (den * z) == (num * z) * den) by (nonlinear_arith);
    }
    let mut whole: Option<u64> = whole_part(&d, point);
    while k > 0 && below(whole, TWO_52)
        invariant
            are_digits(d@),
            point == p,
            k <= 1074,
            den == tens(p as nat),
            den > 0,
            a == num * power2::pow2(smallest()),
            low_first_value(d@) * (den * power2::pow2(k as nat)) == a * tens(point as nat),
            is_whole(whole, low_first_value(d@) / tens(point as nat)),
        decreases k,
    {
        let ghost before = low_first_value(d@);
        d = times(&d, 2);
        k = k - 1;
        proof {
            lemma_pow2_next(k as nat);
            let z = power2::pow2(k as nat);
            assert((2 * before) * (den * z) == before * (den * (2 * z))) by (nonlinear_arith);
        }
        whole = whole_part(&d, point);
    }
    proof {
        lemma_bounds();
    }
    while !below(whole, TWO_53)
        invariant
            are_digits(d@),
            point <= p + 2046,
            p <= 0x10_0000_0000_0000_0000_0000_0000,
            k <= 2046,
            point <= p + k,
            num == low_first_value(digits@),
            den == tens(p as nat),
            den > 0,
            a == num * power2::pow2(smallest()),
            low_first_value(d@) * (den * power2::pow2(k as nat)) == a * tens(point as nat),
            is_whole(whole, low_first_value(d@) / tens(point as nat)),
            k == 0 || low_first_value(d@) / tens(point as nat) >= TWO_52,
            power2::pow2(52) == TWO_52,
            power2::pow2(53) == TWO_53,
        decreases 2047 - k,
    {
        let ghost before = low_first_value(d@);
        let ghost t = tens(point as nat);
        proof {
            lemma_tens_next(point as nat);
            lemma_pow2_next(k as nat);
            lemma_quotient_bound(before, t, TWO_53 as nat);
        }
        if k >= 2046 {
            proof {
                let z = power2::pow2(k as nat);
                assert(den * z > 0) by (nonlinear_arith)
                    requires
                        den > 0,
                        z >= 1,
                ;
                lemma_same_side(before, t, a, den * z, power2::pow2(53));
                lemma_unit_above(num, den, k as nat);
            }
            return None;
        }
        d = times(&d, 5);
        point = point + 1;
        k = k + 1;
        proof {
            let z = power2::pow2((k - 1) as nat);
            assert((5 * before) * (den * (2 * z)) == 10 * (before * (den * z))) by (nonlinear_arith);
            assert(a * (10 * t) == 10 * (a * t)) by (nonlinear_arith);
            assert(tens(point as nat) == 10 * t);
            assert(5 * before >= (10 * t) * TWO_52) by (nonlinear_arith)
                requires
                    before >= t * TWO_53,
                    TWO_53 == 2 * TWO_52,
            ;
            lemma_quotient_bound(5 * before, 10 * t, TWO_52 as nat);
        }
        whole = whole_part(&d, point);
    }
    let side: i8 = compare_half(&d, point);
    let ghost v = low_first_value(d@);
    let ghost t = tens(point as nat);
    let ghost b = den * power2::pow2(k as nat);
    let q: u64 = match whole {
        Some(q) => q,
        None => 0,
    };
    proof {
        lemma_tens_next(point as nat);
        lemma_pow2_next(k as nat);
        assert(b > 0) by (nonlinear_arith)
            requires
                den > 0,
                power2::pow2(k as nat) >= 1,
                b == den * power2::pow2(k as nat),
        ;
        lemma_quotient_bound(v, t, TWO_53 as nat);
        lemma_quotient_bound(v, t, TWO_52 as nat);
        lemma_same_side(v, t, a, b, power2::pow2(53));
        lemma_same_side(v, t, a, b, power2::pow2(52));
        assert(unit_fits(num, den, k as nat));
        lemma_unit_is(num, den, k as nat);
        lemma_half_even_same(a, b, v, t);
        assert(q == v / t);
    }
    let up: bool = side == 1 || (side == 0 && q % 2 == 1);
    let m: u64 = if up {
        q + 1
    } else {
        q
    };
    assert(m == half_even(v, t));
    from_rounded(m, k)
}

/// Whether a whole part is below a bound.
fn below(whole: Option<u64>, bound: u64) -> (r: bool)
    ensures
        r == (whole is Some && whole->0 < bound),
{
    match whole {
        Some(v) => v < bound,
        None => false,
    }
}

/// Whether `whole` is the number `q`, with `None` for a large one.
spec fn is_whole(whole: Option<u64>, q: nat) -> bool {
    match whole {
        Some(v) => v == q,
        None => q >= 1_152_921_504_606_846_976,
    }
}

/// A quotient reaches a bound exactly where the dividend reaches the bound
/// times the divisor.
proof fn lemma_quotient_bound(n: nat, t: nat, x: nat)
    requires
        t > 0,
    ensures
        (n / t >= x) == (n >= t * x),
{
    div_mod::lemma_fundamental_div_mod(n as int, t as int);
    let q = n / t;
    let r = n % t;
    if q >= x {
        assert(t * q >= t * x) by (nonlinear_arith)
            requires
                q >= x,
        ;
    } else {
        assert(t * q + t <= t * x) by (nonlinear_arith)
            requires
                q + 1 <= x,
        ;
    }
}

/// The digits from `p` on write the quotient by the power of ten, those below
/// the remainder.
proof fn lemma_whole(s: Seq<u8>, p: int)
    requires
        are_digits(s),
        0 <= p <= s.len(),
    ensures
        low_first_value(s.skip(p)) == low_first_value(s) / tens(p as nat),
        low_first_value(s.take(p)) == low_first_value(s) % tens(p as nat),
{
    lemma_low_first_split(s, p);
    assert(are_digits(s.take(p))) by {
        assert forall|i: int| 0 <= i < p implies (#[trigger] s.take(p)[i]) < 10 by {
            assert(s.take(p)[i] == s[i]);
        }
    }
    lemma_low_first_bound(s.take(p));
    lemma_tens_next(p as nat);
    let t = tens(p as nat) as int;
    let q = low_first_value(s.skip(p)) as int;
    let r = low_first_value(s.take(p)) as int;
    assert(q * t == t * q) by (nonlinear_arith);
    div_mod::lemma_fundamental_div_mod_converse(low_first_value(s) as int, t, q, r);
}

/// The double nearest to `num / den`, which equals `n / d` in units of
/// `2^(unit - 1074)`.
pub(crate) fn round_scaled(
    n: u128,
    d: u128,
    unit: u32,
    Ghost(num): Ghost<nat>,
    Ghost(den): Ghost<nat>,
) -> (r: Option<Float64>)
    requires
        den > 0,
        0 < d <= 0x40_0000_0000_0000,
        n < 0x4000_0000_0000_0000_0000_0000_0000,
        unit <= MAX_UNIT,
        n * (den * power2::pow2(unit as nat)) == num * power2::pow2(smallest()) * d,
    ensures
        is_nearest(r, num, den),
{
    let ghost a = num * power2::pow2(smallest());
    let mut n: u128 = n;
    let mut d: u128 = d;
    let mut k: u32 = unit;
    proof {
        lemma_bounds();
    }
    while k > 0 && n < d * 4_503_599_627_370_496u128
        invariant
            den > 0,
            0 < d <= 0x40_0000_0000_0000,
            n < 0x4000_0000_0000_0000_0000_0000_0000,
            k <= MAX_UNIT,
            n * (den * power2::pow2(k as nat)) == a * d,
        decreases k,
    {
        let ghost before = n as nat;
        n = n * 2;
        k = k - 1;
        proof {
            lemma_pow2_next(k as nat);
            let z = power2::pow2(k as nat);
            assert((2 * before) * (den * z) == before * (den * (2 * z))) by (nonlinear_arith);
        }
    }
    while n >= d * 9_007_199_254_740_992u128
        invariant
            den > 0,
            0 < d <= 0x400_0000_0000_0000,
            n < 0x4000_0000_0000_0000_0000_0000_0000,
            k <= 2046,
            a == num * power2::pow2(smallest()),
            n * (den * power2::pow2(k as nat)) == a * d,
            k == 0 || n >= d * TWO_52,
            power2::pow2(52) == TWO_52,
            power2::pow2(53) == TWO_53,
        decreases 2047 - k,
    {
        proof {
            lemma_pow2_next(k as nat);
        }
        let ghost z = power2::pow2(k as nat);
        if k >= 2046 {
            proof {
                assert(den * z > 0) by (nonlinear_arith)
                    requires
                        den > 0,
                        z >= 1,
                ;
                lemma_same_side(n as nat, d as nat, a, den * z, power2::pow2(53));
                lemma_unit_above(num, den, k as nat);
            }
            return None;
        }
        let ghost before = d as nat;
        d = d * 2;
        k = k + 1;
        proof {
            assert(n * (den * (2 * z)) == a * (2 * before)) by (nonlinear_arith)
                requires
                    n * (den * z) == a * before,
            ;
        }
    }
    let q: u128 = n / d;
    let rest: u128 = n % d;
    let ghost b = den * power2::pow2(k as nat);
    proof {
        lemma_pow2_next(k as nat);
        assert(b > 0) by (nonlinear_arith)
            requires
                den > 0,
                power2::pow2(k as nat) >= 1,
                b == den * power2::pow2(k as nat),
        ;
        lemma_quotient_bound(n as nat, d as nat, TWO_53 as nat);
        lemma_quotient_bound(n as nat, d as nat, TWO_52 as nat);
        lemma_same_side(n as nat, d as nat, a, b, power2::pow2(53));
        lemma_same_side(n as nat, d as nat, a, b, power2::pow2(52));
        assert(unit_fits(num, den, k as nat));
        lemma_unit_is(num, den, k as nat);
        lemma_half_even_same(a, b, n as nat, d as nat);
    }
    let up: bool = 2 * rest > d || (2 * rest == d && q % 2 == 1);
    let m: u64 = if up {
        q as u64 + 1
    } else {
        q as u64
    };
    assert(m == half_even(n as nat, d as nat));
    from_rounded(m, k)
}

/// The double nearest to the quotient of two integers.
pub fn nearest_quotient(a: u128, b: u64) -> (r: Float64)
    requires
        a <= 0x1_0000_0000_0000_0000,
        0 < b <= 0x100_0000_0000,
    ensures
        is_nearest(Some(r), a as nat, b as nat),
        r.unit <= 1087,
        a < 0x1_0000_0000_0000_0000 ==> r.unit <= 1086,
        a < b * 0x80_0000_0000_0000 ==> r.unit <= 1077,
{
    proof {
        lemma_bounds();
        let z = power2::pow2(1074);
        assert(a as nat * (b as nat * z) == (a as nat * z) * b as nat) by (nonlinear_arith);
    }
    let r: Option<Float64> = round_scaled(
        a,
        b as u128,
        1074,
        Ghost(a as nat),
        Ghost(b as nat),
    );
    proof {
        power2::lemma2_to64_rest();
        power2::lemma_pow2_adds(64, 1);
        power2::lemma2_to64();
        assert(power2::pow2(65) == 0x2_0000_0000_0000_0000);
        assert(a < b * 0x2_0000_0000_0000_0000) by (nonlinear_arith)
            requires
                a <= 0x1_0000_0000_0000_0000,
                b >= 1,
        ;
        lemma_quotient_unit(a as nat, b as nat, 65);
        if a < 0x1_0000_0000_0000_0000 {
            assert(a < b * 0x1_0000_0000_0000_0000) by (nonlinear_arith)
                requires
                    a < 0x1_0000_0000_0000_0000,
                    b >= 1,
            ;
            lemma_quotient_unit(a as nat, b as nat, 64);
        }
        if a < b * 0x80_0000_0000_0000 {
            lemma_quotient_unit(a as nat, b as nat, 55);
        }
    }
    match r {
        Some(x) => x,
        None => Float64 { mantissa: 0, unit: 0 },
    }
}

/// The unit of a quotient below a power of two.
proof fn lemma_quotient_unit(a: nat, b: nat, e: nat)
    requires
        b > 0,
        e >= 52,
        a < b * power2::pow2(e),
    ensures
        nearest(a, b).1 <= 1074 + e - 52,
{
    lemma_unit_exists(a, b);
    let u = unit_of(a, b);
    let over = (1074 + e - 52) as nat;
    if u >= over {
        lemma_pow2_monotone(over, u);
        power2::lemma_pow2_adds(1074, (e - 52) as nat);
        power2::lemma_pow2_adds((e - 52) as nat, 52);
        lemma_pow2_next(1074);
        let z = power2::pow2(1074);
        let y = power2::pow2(u);
        let w = power2::pow2(52);
        let f = power2::pow2((e - 52) as nat);
        assert(b * y * w >= b * (z * (f * w))) by (nonlinear_arith)
            requires
                y >= z * f,
        ;
        assert(a * z < b * (z * (f * w))) by (nonlinear_arith)
            requires
                a < b * (f * w),
                z >= 1,
        ;
    }
}

/// A fraction that is a double already is its own nearest double.
pub proof fn lemma_nearest_exact(num: nat, den: nat, m: nat, k: nat)
    requires
        den > 0,
        num * power2::pow2(smallest()) == m * (den * power2::pow2(k)),
        m < TWO_53,
        k == 0 || m >= TWO_52,
    ensures
        nearest(num, den) == (m, k),
{
    lemma_bounds();
    lemma_pow2_next(k);
    let b = den * power2::pow2(k);
    assert(b > 0) by (nonlinear_arith)
        requires
            den > 0,
            power2::pow2(k) >= 1,
            b == den * power2::pow2(k),
    ;
    assert(m * b < b * power2::pow2(53)) by (nonlinear_arith)
        requires
            m < power2::pow2(53),
            b > 0,
    ;
    assert(m >= TWO_52 ==> m * b >= b * power2::pow2(52)) by (nonlinear_arith)
        requires
            power2::pow2(52) == TWO_52,
    ;
    assert(unit_fits(num, den, k));
    lemma_unit_is(num, den, k);
    lemma_half_even_exact(m, b);
}

/// The integer that the double nearest to an integer holds.
pub open spec fn as_double(a: nat) -> nat {
    (nearest(a, 1).0 * power2::pow2(nearest(a, 1).1)) / power2::pow2(smallest())
}

/// Integers up to 2^53 are doubles.
pub proof fn lemma_small_integer(a: nat)
    requires
        a <= TWO_53,
    ensures
        nearest(a, 1).0 * power2::pow2(nearest(a, 1).1) == a * power2::pow2(smallest()),
        nearest(a, 1).1 <= 1075,
        nearest(a, 1).0 < TWO_53,
        nearest(a, 1).1 == 0 || nearest(a, 1).0 >= TWO_52,
        as_double(a) == a,
{
    lemma_bounds();
    lemma_unit_exists(a, 1);
    let u = unit_of(a, 1);
    let z = power2::pow2(1074);
    lemma_pow2_next(1074);
    lemma_pow2_next(u);
    assert(1 * power2::pow2(u) == power2::pow2(u));
    if u >= 1076 {
        lemma_pow2_monotone(1076, u);
        lemma_pow2_next(1075);
        assert(power2::pow2(u) * power2::pow2(52) >= (4 * z) * TWO_52) by (nonlinear_arith)
            requires
                power2::pow2(u) >= 4 * z,
                power2::pow2(52) == TWO_52,
        ;
        assert(a * z <= TWO_53 * z) by (nonlinear_arith)
            requires
                a <= TWO_53,
        ;
    } else if u == 1075 {
        assert(a == TWO_53) by (nonlinear_arith)
            requires
                a * z >= (2 * z) * TWO_52,
                a <= TWO_53,
                TWO_53 == 2 * TWO_52,
                z >= 1,
        ;
        assert(a * z == TWO_52 * (1 * power2::pow2(1075))) by (nonlinear_arith)
            requires
                a == 2 * TWO_52,
                power2::pow2(1075) == 2 * z,
        ;
        lemma_nearest_exact(a, 1, TWO_52 as nat, 1075);
    } else {
        let d = (1074 - u) as nat;
        power2::lemma_pow2_adds(u, d);
        let p = power2::pow2(u);
        let w = power2::pow2(d);
        let m = a * w;
        assert(a * z == m * (1 * p)) by (nonlinear_arith)
            requires
                z == p * w,
                m == a * w,
        ;
        assert(m < TWO_53) by (nonlinear_arith)
            requires
                m * p < p * TWO_53,
                p >= 1,
        ;
        assert(u == 0 || m >= TWO_52) by (nonlinear_arith)
            requires
                u == 0 || m * p >= p * TWO_52,
                p >= 1,
        ;
        lemma_nearest_exact(a, 1, m, u);
    }
    div_mod::lemma_div_multiples_vanish(a as int, z as int);
    assert(a * z == z * a) by (nonlinear_arith);
}

/// The integer that the double nearest to `a` holds.
pub fn double_of(a: u64) -> (r: u128)
    ensures
        r == as_double(a as nat),
        r <= 0x1_0000_0000_0000_0000,
        a <= TWO_53 ==> r == a,
{
    proof {
        lemma_bounds();
        if a <= TWO_53 {
            lemma_small_integer(a as nat);
        }
    }
    if a <= TWO_53 {
        return a as u128;
    }
    let x: Float64 = nearest_quotient(a as u128, 1);
    let ghost z = power2::pow2(1074);
    proof {
        lemma_large_integer(a as nat);
    }
    let up: u32 = x.unit - 1074;
    let p: u128 = power_of_two(up);
    proof {
        power2::lemma2_to64();
        lemma_pow2_next(1074);
        lemma_pow2_monotone(up as nat, 12);
        power2::lemma_pow2_adds(1074, up as nat);
        let m = x.mantissa as nat;
        assert(m * (z * p) == (m * p) * z) by (nonlinear_arith);
        div_mod::lemma_div_multiples_vanish((m * p) as int, z as int);
        assert((m * p) * z == z * (m * p)) by (nonlinear_arith);
        assert(m * p <= TWO_53 * 4096) by (nonlinear_arith)
            requires
                m <= TWO_53,
                p <= 4096,
        ;
        lemma_as_double_bound(a as nat);
    }
    (x.mantissa as u128) * p
}

/// An integer above 2^53 has a unit of at least one.
proof fn lemma_large_integer(a: nat)
    requires
        a > TWO_53,
    ensures
        nearest(a, 1).1 >= 1075,
{
    lemma_bounds();
    let z = power2::pow2(1074);
    lemma_pow2_next(1074);
    assert(a * z >= 1 * power2::pow2(1074) * power2::pow2(53)) by (nonlinear_arith)
        requires
            a > TWO_53,
            z == power2::pow2(1074),
            power2::pow2(53) == TWO_53,
    ;
    lemma_unit_above(a, 1, 1074);
}

/// The mantissa of a nearest double uses the bits that its unit leaves it.
pub proof fn lemma_nearest_shape(num: nat, den: nat)
    requires
        den > 0,
    ensures
        nearest(num, den).0 < TWO_53,
        nearest(num, den).1 == 0 || nearest(num, den).0 >= TWO_52,
{
    lemma_bounds();
    lemma_unit_exists(num, den);
    let u = unit_of(num, den);
    lemma_pow2_next(u);
    let a = num * power2::pow2(smallest());
    let b = den * power2::pow2(u);
    assert(b > 0) by (nonlinear_arith)
        requires
            den > 0,
            power2::pow2(u) >= 1,
            b == den * power2::pow2(u),
    ;
    div_mod::lemma_fundamental_div_mod(a as int, b as int);
    let q = a / b;
    assert(q < TWO_53) by (nonlinear_arith)
        requires
            b * q <= a,
            a < b * TWO_53,
            b > 0,
    ;
    let r = a % b;
    assert(u == 0 || q >= TWO_52) by (nonlinear_arith)
        requires
            u == 0 || a >= b * TWO_52,
            a == b * q + r,
            r < b,
    ;
}

/// The double nearest to an integer that a double holds is that integer.
pub proof fn lemma_held_integer(a: nat)
    requires
        as_double(a) == a,
        a <= i64::MAX,
    ensures
        nearest(a, 1).0 * power2::pow2(nearest(a, 1).1) == a * power2::pow2(smallest()),
        nearest(a, 1).1 <= 1086,
        nearest(a, 1).0 < TWO_53,
        nearest(a, 1).1 == 0 || nearest(a, 1).0 >= TWO_52,
{
    if a <= TWO_53 {
        lemma_small_integer(a);
    } else {
        lemma_bounds();
        power2::lemma2_to64_rest();
        lemma_nearest_shape(a, 1);
        lemma_large_integer(a);
        lemma_quotient_unit(a, 1, 64);
        let m = nearest(a, 1).0;
        let up = (nearest(a, 1).1 - 1074) as nat;
        let z = power2::pow2(1074);
        let p = power2::pow2(up);
        lemma_pow2_next(1074);
        power2::lemma_pow2_adds(1074, up);
        assert(m * (z * p) == z * (m * p)) by (nonlinear_arith);
        div_mod::lemma_div_multiples_vanish((m * p) as int, z as int);
        assert(z * a == a * z) by (nonlinear_arith);
    }
}

/// Where a double holds a thousand times an integer, one holds the integer.
pub proof fn lemma_thousandth_is_held(n: nat)
    requires
        as_double(1000 * n) == 1000 * n,
        1000 * n <= i64::MAX,
    ensures
        as_double(n) == n,
{
    if n <= TWO_53 {
        lemma_small_integer(n);
    } else {
        lemma_bounds();
        power2::lemma2_to64();
        power2::lemma2_to64_rest();
        let v = 1000 * n;
        lemma_held_integer(v);
        let m = nearest(v, 1).0;
        let u = nearest(v, 1).1;
        let z = power2::pow2(1074);
        lemma_pow2_next(1074);
        lemma_large_integer(v);
        let up = (u - 1074) as nat;
        let p = power2::pow2(up);
        power2::lemma_pow2_adds(1074, up);
        assert(v == m * p) by (nonlinear_arith)
            requires
                m * (z * p) == v * z,
                z >= 1,
        ;
        if up < 10 {
            lemma_pow2_monotone(up, 9);
            assert(m * p <= TWO_53 * 512) by (nonlinear_arith)
                requires
                    m <= TWO_53,
                    p <= 512,
            ;
        }
        let rest = (up - 10) as nat;
        power2::lemma_pow2_adds(10, rest);
        let q = m * power2::pow2(rest);
        assert(m * p == 1024 * q) by (nonlinear_arith)
            requires
                p == 1024 * power2::pow2(rest),
                q == m * power2::pow2(rest),
        ;
        assert(125 * n == 128 * q);
        assert(n == 128 * (85 * q - 83 * n));
        let half = n / 2;
        assert(n == 2 * half);
        lemma_pow2_next(1074);
        assert(n * z == half * (1 * power2::pow2(1075))) by (nonlinear_arith)
            requires
                n == 2 * half,
                power2::pow2(1075) == 2 * z,
        ;
        lemma_nearest_exact(n, 1, half, 1075);
        assert(half * power2::pow2(1075) == z * n) by (nonlinear_arith)
            requires
                n * z == half * (1 * power2::pow2(1075)),
        ;
        div_mod::lemma_div_multiples_vanish(n as int, z as int);
    }
}

/// The double nearest to a 64-bit integer is at most 2^64.
proof fn lemma_as_double_bound(a: nat)
    requires
        TWO_53 < a <= u64::MAX,
    ensures
        as_double(a) <= 0x1_0000_0000_0000_0000,
{
    lemma_bounds();
    power2::lemma2_to64();
    power2::lemma2_to64_rest();
    lemma_large_integer(a);
    lemma_unit_exists(a, 1);
    let u = unit_of(a, 1);
    let z = power2::pow2(1074);
    lemma_pow2_next(1074);
    lemma_pow2_next(u);
    let b = 1 * power2::pow2(u);
    let n = a * z;
    let m = half_even(n, b);
    // The unit is at most 2^11, so the rounded mantissa cannot pass 2^64.
    if u >= 1086 {
        lemma_pow2_monotone(1086, u);
        power2::lemma_pow2_adds(1074, 12);
        power2::lemma_pow2_adds(12, 52);
        assert(power2::pow2(u) * power2::pow2(52) >= z * 0x1_0000_0000_0000_0000) by (nonlinear_arith)
            requires
                power2::pow2(u) >= z * 4096,
                power2::pow2(52) == TWO_52,
                TWO_52 * 4096 == 0x1_0000_0000_0000_0000,
                z >= 1,
        ;
        assert(n < z * 0x1_0000_0000_0000_0000) by (nonlinear_arith)
            requires
                n == a * z,
                a <= u64::MAX,
                z >= 1,
        ;
    }
    assert(u <= 1085);
    lemma_pow2_monotone(u, 1085);
    power2::lemma_pow2_adds(1074, 11);
    div_mod::lemma_fundamental_div_mod(n as int, b as int);
    lemma_quotient_bound(n, b, power2::pow2(53));
    assert(m <= power2::pow2(53));
    let v = nearest(a, 1).0 * power2::pow2(nearest(a, 1).1);
    lemma_pow2_next(1085);
    assert(v <= 0x1_0000_0000_0000_0000 * z) by {
        if m == power2::pow2(53) {
            assert(v == power2::pow2(52) * power2::pow2(u + 1));
            assert(power2::pow2(52) * power2::pow2(u + 1) <= 0x1_0000_0000_0000_0000 * z)
                by (nonlinear_arith)
                requires
                    power2::pow2(52) == TWO_52,
                    power2::pow2(u + 1) == 2 * power2::pow2(u),
                    power2::pow2(u) <= z * 2048,
                    TWO_52 * 4096 == 0x1_0000_0000_0000_0000,
            ;
        } else {
            assert(v == m * power2::pow2(u));
            assert(m * power2::pow2(u) <= 0x1_0000_0000_0000_0000 * z) by (nonlinear_arith)
                requires
                    m <= TWO_53,
                    power2::pow2(u) <= z * 2048,
                    TWO_53 * 2048 == 0x1_0000_0000_0000_0000,
            ;
        }
    }
    div_mod::lemma_div_is_ordered(v as int, (0x1_0000_0000_0000_0000 * z) as int, z as int);
    div_mod::lemma_div_multiples_vanish(0x1_0000_0000_0000_0000, z as int);
}

/// The double nearest to a double times an integer.
pub fn nearest_product(x: Float64, factor: u64) -> (r: Option<Float64>)
    requires
        x.wf(),
        factor <= 0x4000_0000,
    ensures
        is_nearest(r, x.scaled() * factor as nat, power2::pow2(smallest())),
{
    let m: u128 = x.mantissa as u128;
    let f: u128 = factor as u128;
    assert(m * f <= 0x20_0000_0000_0000 * 0x4000_0000) by (nonlinear_arith)
        requires
            m <= 0x20_0000_0000_0000,
            f <= 0x4000_0000,
    ;
    let ghost num = x.scaled() * factor as nat;
    let ghost den = power2::pow2(smallest());
    proof {
        lemma_pow2_next(1074);
        let z = power2::pow2(x.unit as nat);
        assert((m * f) * (den * z) == ((m * z) * f) * den * 1) by (nonlinear_arith);
    }
    round_scaled(m * f, 1, x.unit, Ghost(num), Ghost(den))
}

/// A power of two that fits in 128 bits.
fn power_of_two(t: u32) -> (r: u128)
    requires
        t <= 100,
    ensures
        r == power2::pow2(t as nat),
        r <= 0x10_0000_0000_0000_0000_0000_0000,
{
    let mut r: u128 = 1;
    let mut i: u32 = 0;
    proof {
        lemma_bounds();
        power2::lemma_pow2_adds(50, 50);
        power2::lemma2_to64_rest();
    }
    while i < t
        invariant
            i <= t <= 100,
            r == power2::pow2(i as nat),
            power2::pow2(100) == 0x10_0000_0000_0000_0000_0000_0000,
        decreases t - i,
    {
        proof {
            lemma_pow2_next(i as nat);
            lemma_pow2_monotone(i as nat, 99);
            lemma_pow2_next(99);
        }
        r = r * 2;
        i = i + 1;
    }
    proof {
        lemma_pow2_monotone(t as nat, 100);
    }
    r
}

/// Both sides of a fraction times the same factor round alike.
pub proof fn lemma_half_even_cancel(a: nat, b: nat, c: nat)
    requires
        b > 0,
        c > 0,
    ensures
        half_even(a * c, b * c) == half_even(a, b),
{
    assert(b * c > 0) by (nonlinear_arith)
        requires
            b > 0,
            c > 0,
    ;
    assert((a * c) * b == a * (b * c)) by (nonlinear_arith);
    lemma_half_even_same(a * c, b * c, a, b);
}

/// A multiple of the divisor rounds to the factor.
pub proof fn lemma_half_even_exact(q: nat, b: nat)
    requires
        b > 0,
    ensures
        half_even(q * b, b) == q,
{
    lemma_half_even_cancel(q, 1, b);
    assert(1 * b == b);
}

/// A double times a power of ten, rounded to the nearest integer with ties to
/// the even one.
pub fn shifted(x: Float64, decimals: u32) -> (r: u128)
    requires
        x.wf(),
        x.unit <= 1086,
        decimals <= 6,
    ensures
        r == half_even(x.scaled() * tens(decimals as nat), power2::pow2(smallest())),
        r <= 0x1000_0000_0000_0000_0000_0000,
{
    let scale: u64 = small_tens(decimals);
    let m: u128 = x.mantissa as u128;
    let c: u128 = scale as u128;
    assert(m * c <= 0x20_0000_0000_0000 * 1_000_000) by (nonlinear_arith)
        requires
            m <= 0x20_0000_0000_0000,
            c <= 1_000_000,
    ;
    let n: u128 = m * c;
    let ghost z = power2::pow2(x.unit as nat);
    let ghost den = power2::pow2(smallest());
    proof {
        lemma_pow2_next(x.unit as nat);
        lemma_pow2_next(1074);
        assert((m * z) * c == (m * c) * z) by (nonlinear_arith);
    }
    if x.unit >= 1074 {
        let up: u32 = x.unit - 1074;
        let p: u128 = power_of_two(up);
        proof {
            power2::lemma2_to64();
            lemma_pow2_monotone(up as nat, 12);
            power2::lemma_pow2_adds(1074, up as nat);
            assert(n * p <= (0x20_0000_0000_0000 * 1_000_000) * 4096) by (nonlinear_arith)
                requires
                    n <= 0x20_0000_0000_0000 * 1_000_000,
                    p <= 4096,
            ;
            assert(n * (den * p) == (n * p) * den) by (nonlinear_arith);
            lemma_half_even_exact((n * p) as nat, den);
        }
        n * p
    } else {
        let t: u32 = 1074 - x.unit;
        proof {
            power2::lemma_pow2_adds(x.unit as nat, t as nat);
            lemma_pow2_next(t as nat);
            let w = power2::pow2(t as nat);
            assert(z * w == w * z) by (nonlinear_arith);
            lemma_half_even_cancel(n as nat, w, z);
            assert(half_even(x.scaled() * tens(decimals as nat), den) == half_even(n as nat, w));
        }
        if t > 90 {
            proof {
                lemma_pow2_monotone(80, t as nat);
                power2::lemma_pow2_adds(40, 40);
                power2::lemma2_to64_rest();
                div_mod::lemma_basic_div(n as int, power2::pow2(t as nat) as int);
                div_mod::lemma_small_mod(n as nat, power2::pow2(t as nat));
            }
            0
        } else {
            let w: u128 = power_of_two(t);
            let q: u128 = n / w;
            let rest: u128 = n % w;
            proof {
                lemma_div_shrinks(n as nat, w as nat);
            }
            if 2 * rest > w || (2 * rest == w && q % 2 == 1) {
                q + 1
            } else {
                q
            }
        }
    }
}

/// A quotient is not above the dividend.
proof fn lemma_div_shrinks(n: nat, d: nat)
    requires
        d > 0,
    ensures
        n / d <= n,
{
    div_mod::lemma_div_is_ordered_by_denominator(n as int, 1, d as int);
}

/// A small power of ten.
pub(crate) fn small_tens(n: u32) -> (r: u64)
    requires
        n <= 6,
    ensures
        r == tens(n as nat),
        1 <= r <= 1_000_000,
{
    let mut r: u64 = 1;
    let mut i: u32 = 0;
    proof {
        lemma_tens_next(0);
        lemma_tens_next(1);
        lemma_tens_next(2);
        lemma_tens_next(3);
        lemma_tens_next(4);
        lemma_tens_next(5);
    }
    while i < n
        invariant
            i <= n <= 6,
            r == tens(i as nat),
            tens(0) == 1,
            tens(1) == 10,
            tens(2) == 100,
            tens(3) == 1000,
            tens(4) == 10_000,
            tens(5) == 100_000,
            tens(6) == 1_000_000,
        decreases n - i,
    {
        proof {
            lemma_tens_next(i as nat);
        }
        r = r * 10;
        i = i + 1;
    }
    r
}

/// The text of an integer that counts units of the last of `decimals` places.
pub open spec fn fixed_text(q: nat, decimals: nat) -> Seq<char> {
    if decimals == 0 {
        number::nat_text(q)
    } else {
        number::nat_text(q / tens(decimals)) + seq!['.'] + number::padded_text(
            q % tens(decimals),
            decimals,
        )
    }
}

/// A double that is not negative, with a fixed number of decimals: the exact
/// value rounded to the nearest such decimal, a tie to the even last digit.
pub open spec fn decimal_text(x: Float64, decimals: nat) -> Seq<char> {
    fixed_text(half_even(x.scaled() * tens(decimals), power2::pow2(smallest())), decimals)
}

/// A double that is not negative, with a fixed number of decimals.
pub fn format_fixed(x: Float64, decimals: u32) -> (r: String)
    requires
        x.wf(),
        x.unit <= 1077,
        decimals <= 2,
    ensures
        r@ == decimal_text(x, decimals as nat),
{
    let q: u128 = shifted(x, decimals);
    proof {
        lemma_shifted_bound(x, decimals as nat);
    }
    let q: u64 = q as u64;
    if decimals == 0 {
        return number::u64_text(q);
    }
    let scale: u64 = small_tens(decimals);
    let mut out: String = number::u64_text(q / scale);
    out.push('.');
    let rest: String = number::padded(q % scale, decimals as usize);
    out.append(rest.as_str());
    assert(out@ =~= number::nat_text((q / scale) as nat) + seq!['.'] + rest@);
    out
}

/// A double below 2^56, with up to two decimals, is a 64-bit count of its last
/// place.
proof fn lemma_shifted_bound(x: Float64, decimals: nat)
    requires
        x.wf(),
        x.unit <= 1077,
        decimals <= 2,
    ensures
        half_even(x.scaled() * tens(decimals), power2::pow2(smallest())) <= u64::MAX,
{
    lemma_tens_next(0);
    lemma_tens_next(1);
    let den = power2::pow2(1074);
    lemma_pow2_next(1074);
    lemma_pow2_next(1075);
    lemma_pow2_next(1076);
    lemma_pow2_monotone(x.unit as nat, 1077);
    let z = power2::pow2(x.unit as nat);
    let m = x.mantissa as nat;
    let t = tens(decimals);
    let n = x.scaled() * t;
    assert(n <= (TWO_53 * 800) * den) by (nonlinear_arith)
        requires
            n == (m * z) * t,
            m <= TWO_53,
            z <= 8 * den,
            t <= 100,
    ;
    let c = (TWO_53 * 800) as nat;
    div_mod::lemma_div_is_ordered(n as int, (c * den) as int, den as int);
    div_mod::lemma_div_multiples_vanish(c as int, den as int);
    assert(c * den == den * c) by (nonlinear_arith);
}

/// Whether a double is below an integer.
pub fn is_below(x: Float64, bound: u64) -> (r: bool)
    requires
        x.wf(),
        0 < bound <= 0x100_0000,
    ensures
        r == (x.scaled() < bound as nat * power2::pow2(smallest())),
{
    let ghost z = power2::pow2(x.unit as nat);
    let ghost den = power2::pow2(smallest());
    let ghost m = x.mantissa as nat;
    let ghost b = bound as nat;
    proof {
        lemma_pow2_next(x.unit as nat);
        lemma_pow2_next(1074);
        power2::lemma2_to64();
        lemma_bounds();
    }
    if x.unit >= 1074 {
        proof {
            lemma_pow2_monotone(1074, x.unit as nat);
            assert(m * z >= b * den) by (nonlinear_arith)
                requires
                    m >= b,
                    z >= den,
            ;
        }
        return false;
    }
    let t: u32 = 1074 - x.unit;
    proof {
        power2::lemma_pow2_adds(x.unit as nat, t as nat);
    }
    let ghost w = power2::pow2(t as nat);
    if t > 60 {
        proof {
            lemma_pow2_monotone(53, t as nat);
            assert(m * z < b * den) by (nonlinear_arith)
                requires
                    m < w,
                    b >= 1,
                    z >= 1,
                    den == z * w,
            ;
        }
        return true;
    }
    let p: u128 = power_of_two(t);
    assert((bound as u128) * p <= 0x100_0000 * 0x10_0000_0000_0000_0000_0000_0000)
        by (nonlinear_arith)
        requires
            bound <= 0x100_0000,
            p <= 0x10_0000_0000_0000_0000_0000_0000,
    ;
    proof {
        assert((m < b * w) == (m * z < b * den)) by (nonlinear_arith)
            requires
                den == z * w,
                z >= 1,
        ;
    }
    (x.mantissa as u128) < (bound as u128) * p
}

/// A double rounded to the nearest integer, a tie upwards, and held at the
/// largest 64-bit integer.
pub fn rounded_i64(x: Float64) -> (r: i64)
    requires
        x.wf(),
    ensures
        ({
            let v = half_up(x.scaled(), power2::pow2(smallest()));
            r == if v > i64::MAX {
                i64::MAX as int
            } else {
                v as int
            }
        }),
{
    let ghost z = power2::pow2(x.unit as nat);
    let ghost den = power2::pow2(smallest());
    let ghost m = x.mantissa as nat;
    proof {
        lemma_pow2_next(x.unit as nat);
        lemma_pow2_next(1074);
        lemma_bounds();
    }
    if x.unit >= 1074 {
        let up: u32 = x.unit - 1074;
        let ghost p = power2::pow2(up as nat);
        proof {
            power2::lemma_pow2_adds(1074, up as nat);
            assert(m * (den * p) == (m * p) * den) by (nonlinear_arith);
            lemma_half_up_exact(m * p, den);
        }
        if up >= 11 {
            proof {
                power2::lemma2_to64();
                lemma_pow2_monotone(11, up as nat);
                assert(m * p >= TWO_52 * 2048) by (nonlinear_arith)
                    requires
                        m >= TWO_52,
                        p >= 2048,
                ;
            }
            return i64::MAX;
        }
        let q: u128 = power_of_two(up);
        proof {
            power2::lemma2_to64();
            lemma_pow2_monotone(up as nat, 10);
            assert(m * q <= TWO_53 * 1024) by (nonlinear_arith)
                requires
                    m <= TWO_53,
                    q <= 1024,
            ;
            assert(m * q < TWO_53 * 1024) by (nonlinear_arith)
                requires
                    m < TWO_53,
                    0 < q <= 1024,
            ;
        }
        let v: u128 = (x.mantissa as u128) * q;
        return v as i64;
    }
    let t: u32 = 1074 - x.unit;
    proof {
        power2::lemma_pow2_adds(x.unit as nat, t as nat);
        lemma_pow2_next(t as nat);
        let w = power2::pow2(t as nat);
        assert(z * w == w * z) by (nonlinear_arith);
        lemma_half_up_cancel(m, w, z);
    }
    if t > 60 {
        proof {
            lemma_pow2_monotone(60, t as nat);
            power2::lemma2_to64_rest();
            div_mod::lemma_basic_div(
                (2 * m + power2::pow2(t as nat)) as int,
                2 * power2::pow2(t as nat) as int,
            );
        }
        return 0;
    }
    let w: u128 = power_of_two(t);
    let n: u128 = 2 * (x.mantissa as u128) + w;
    let q: u128 = n / (2 * w);
    proof {
        lemma_pow2_next(0);
        lemma_pow2_monotone(1, t as nat);
        assert(n <= 2 * w * TWO_53) by (nonlinear_arith)
            requires
                n == 2 * m + w,
                m < TWO_53,
                w >= 2,
                TWO_53 == 9_007_199_254_740_992,
        ;
        div_mod::lemma_div_is_ordered(n as int, (2 * w) * TWO_53, 2 * w as int);
        div_mod::lemma_div_multiples_vanish(TWO_53 as int, 2 * w as int);
    }
    q as i64
}

/// Both sides of a fraction times the same factor round alike.
proof fn lemma_half_up_cancel(a: nat, b: nat, c: nat)
    requires
        b > 0,
        c > 0,
    ensures
        half_up(a * c, b * c) == half_up(a, b),
{
    let x = (2 * a + b) as int;
    let y = (2 * b) as int;
    assert(2 * (a * c) + b * c == c * x) by (nonlinear_arith)
        requires
            x == 2 * a + b,
    ;
    assert(2 * (b * c) == c * y) by (nonlinear_arith)
        requires
            y == 2 * b,
    ;
    div_mod::lemma_truncate_middle(x, y, c as int);
    div_mod::lemma_div_denominator(c * x, c as int, y);
    div_mod::lemma_div_multiples_vanish(x, c as int);
}

/// A multiple of the divisor rounds to the factor.
pub proof fn lemma_half_up_exact(q: nat, b: nat)
    requires
        b > 0,
    ensures
        half_up(q * b, b) == q,
{
    lemma_half_up_cancel(q, 1, b);
    assert(1 * b == b);
    assert((2 * q + 1) / 2 == q);
}

/// The quotient of two integers in double precision, with a fixed number of
/// decimals.
pub open spec fn quotient_text(a: nat, b: nat, decimals: nat) -> Seq<char> {
    let q = nearest(as_double(a), b);
    fixed_text(
        half_even(q.0 * power2::pow2(q.1) * tens(decimals), power2::pow2(smallest())),
        decimals,
    )
}

/// The quotient of two integers in double precision, with a fixed number of
/// decimals.
pub fn format_quotient(a: u64, b: u64, decimals: u32) -> (r: String)
    requires
        1000 <= b <= 0x100_0000_0000,
        decimals <= 2,
    ensures
        r@ == quotient_text(a as nat, b as nat, decimals as nat),
{
    let d: u128 = double_of(a);
    assert(d < b * 0x80_0000_0000_0000) by (nonlinear_arith)
        requires
            d <= 0x1_0000_0000_0000_0000,
            b >= 1000,
    ;
    let x: Float64 = nearest_quotient(d, b);
    format_fixed(x, decimals)
}

/// A double precision value.
#[derive(Debug, Clone, Copy, PartialEq, Eq, Structural)]
pub enum Double {
    Nan,
    Infinite { negative: bool },
    Finite { negative: bool, value: Float64 },
}

impl Double {
    /// A finite value has a valid magnitude.
    pub open spec fn wf(self) -> bool {
        self is Finite ==> self->value.wf()
    }
}

/// A finite double with its sign, times 2^1074.
pub open spec fn signed_scaled(negative: bool, value: Float64) -> int {
    if negative {
        -(value.scaled() as int)
    } else {
        value.scaled() as int
    }
}

/// Whether one double of positive sign is above another.
pub(crate) fn magnitude_above(a: Float64, b: Float64) -> (r: bool)
    requires
        a.wf(),
        b.wf(),
    ensures
        r == (a.scaled() > b.scaled()),
{
    proof {
        lemma_magnitude_order(a, b);
        lemma_magnitude_order(b, a);
        lemma_pow2_next(a.unit as nat);
        let z = power2::pow2(a.unit as nat);
        let x = a.mantissa as nat;
        let y = b.mantissa as nat;
        assert((x * z > y * z) == (x > y)) by (nonlinear_arith)
            requires
                z >= 1,
        ;
    }
    a.unit > b.unit || (a.unit == b.unit && a.mantissa > b.mantissa)
}

/// The larger unit is the larger double.
proof fn lemma_magnitude_order(a: Float64, b: Float64)
    requires
        a.wf(),
        b.wf(),
    ensures
        a.unit > b.unit ==> a.scaled() > b.scaled(),
{
    if a.unit > b.unit {
        lemma_pow2_next(b.unit as nat);
        lemma_pow2_monotone((b.unit + 1) as nat, a.unit as nat);
        let x = power2::pow2(a.unit as nat);
        let y = power2::pow2(b.unit as nat);
        let m = a.mantissa as nat;
        let n = b.mantissa as nat;
        assert(m * x > n * y) by (nonlinear_arith)
            requires
                m >= TWO_52,
                n < TWO_53,
                TWO_53 == 2 * TWO_52,
                x >= 2 * y,
                y >= 1,
        ;
    }
}

/// Whether one finite double is above another.
pub fn is_above(a_negative: bool, a: Float64, b_negative: bool, b: Float64) -> (r: bool)
    requires
        a.wf(),
        b.wf(),
    ensures
        r == (signed_scaled(a_negative, a) > signed_scaled(b_negative, b)),
{
    proof {
        lemma_pow2_next(a.unit as nat);
        lemma_pow2_next(b.unit as nat);
        let x = power2::pow2(a.unit as nat);
        let y = power2::pow2(b.unit as nat);
        let m = a.mantissa as nat;
        let n = b.mantissa as nat;
        assert((m * x == 0) == (m == 0)) by (nonlinear_arith)
            requires
                x >= 1,
        ;
        assert((n * y == 0) == (n == 0)) by (nonlinear_arith)
            requires
                y >= 1,
        ;
    }
    if !a_negative && !b_negative {
        magnitude_above(a, b)
    } else if a_negative && b_negative {
        magnitude_above(b, a)
    } else if b_negative {
        a.mantissa != 0 || b.mantissa != 0
    } else {
        false
    }
}

} // verus!
