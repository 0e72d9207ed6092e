//! Arithmetic, comparison and printing of double precision values, each
//! operation exact and then rounded to the nearest double.

use crate::float64;
use crate::float64::{Double, Float64, MAX_UNIT, TWO_52, TWO_53};
use crate::float_text;
use crate::float_text::FloatForm;
use crate::number;
use crate::text;
use vstd::arithmetic::{div_mod, power, power2};
use vstd::prelude::*;

verus! {

/// The double nearest to a fraction, with a sign.
pub open spec fn rounded(negative: bool, num: nat, den: nat) -> Double {
    let n = float64::nearest(num, den);
    if n.1 > MAX_UNIT {
        Double::Infinite { negative }
    } else {
        Double::Finite { negative, value: Float64 { mantissa: n.0 as u64, unit: n.1 as u32 } }
    }
}

/// Zero, with a sign.
pub open spec fn zero(negative: bool) -> Double {
    Double::Finite { negative, value: Float64 { mantissa: 0, unit: 0 } }
}

/// The absolute value of an integer.
pub open spec fn magnitude(n: int) -> nat {
    if n < 0 {
        (-n) as nat
    } else {
        n as nat
    }
}

/// The value of the last place of the smallest double, as the divisor of every
/// scaled value.
pub open spec fn one() -> nat {
    power2::pow2(float64::smallest())
}

/// The sum in double precision.
pub open spec fn sum_of(a: Double, b: Double) -> Double {
    match (a, b) {
        (Double::Nan, _) => Double::Nan,
        (_, Double::Nan) => Double::Nan,
        (Double::Infinite { negative: x }, Double::Infinite { negative: y }) => if x == y {
            a
        } else {
            Double::Nan
        },
        (Double::Infinite { .. }, _) => a,
        (_, Double::Infinite { .. }) => b,
        (
            Double::Finite { negative: x, value: p },
            Double::Finite { negative: y, value: q },
        ) => {
            let s = float64::signed_scaled(x, p) + float64::signed_scaled(y, q);
            if s == 0 {
                zero(x && y)
            } else {
                rounded(s < 0, magnitude(s), one())
            }
        },
    }
}

/// The value with the other sign.
pub open spec fn negated(a: Double) -> Double {
    match a {
        Double::Nan => Double::Nan,
        Double::Infinite { negative } => Double::Infinite { negative: !negative },
        Double::Finite { negative, value } => Double::Finite { negative: !negative, value },
    }
}

/// The difference in double precision.
pub open spec fn difference_of(a: Double, b: Double) -> Double {
    sum_of(a, negated(b))
}

/// The product in double precision.
pub open spec fn product_of(a: Double, b: Double) -> Double {
    match (a, b) {
        (Double::Nan, _) => Double::Nan,
        (_, Double::Nan) => Double::Nan,
        (Double::Infinite { negative: x }, Double::Infinite { negative: y }) => Double::Infinite {
            negative: x != y,
        },
        (Double::Infinite { negative: x }, Double::Finite { negative: y, value }) => if value.mantissa
            == 0 {
            Double::Nan
        } else {
            Double::Infinite { negative: x != y }
        },
        (Double::Finite { negative: x, value }, Double::Infinite { negative: y }) => if value.mantissa
            == 0 {
            Double::Nan
        } else {
            Double::Infinite { negative: x != y }
        },
        (
            Double::Finite { negative: x, value: p },
            Double::Finite { negative: y, value: q },
        ) => rounded(x != y, p.scaled() * q.scaled(), one() * one()),
    }
}

/// The quotient by a positive integer in double precision.
pub open spec fn divided_by(a: Double, divisor: nat) -> Double {
    match a {
        Double::Nan => Double::Nan,
        Double::Infinite { .. } => a,
        Double::Finite { negative, value } => rounded(negative, value.scaled(), one() * divisor),
    }
}

/// Whether one value is below another; neither where one is no number.
pub open spec fn below(a: Double, b: Double) -> bool {
    match (a, b) {
        (Double::Nan, _) => false,
        (_, Double::Nan) => false,
        (Double::Infinite { negative: x }, Double::Infinite { negative: y }) => x && !y,
        (Double::Infinite { negative: x }, _) => x,
        (_, Double::Infinite { negative: y }) => !y,
        (
            Double::Finite { negative: x, value: p },
            Double::Finite { negative: y, value: q },
        ) => float64::signed_scaled(x, p) < float64::signed_scaled(y, q),
    }
}

/// Whether one value is below another or equal to it.
pub open spec fn at_most(a: Double, b: Double) -> bool {
    a != Double::Nan && b != Double::Nan && !below(b, a)
}

/// The value, or zero where it is below zero or no number.
pub open spec fn at_least_zero(a: Double) -> Double {
    if a == Double::Nan || below(a, zero(false)) {
        zero(false)
    } else {
        a
    }
}

/// The value without its sign.
pub open spec fn absolute(a: Double) -> Double {
    match a {
        Double::Nan => Double::Nan,
        Double::Infinite { .. } => Double::Infinite { negative: false },
        Double::Finite { value, .. } => Double::Finite { negative: false, value },
    }
}

/// The larger of two values; the other one where one is no number.
pub open spec fn larger_of(a: Double, b: Double) -> Double {
    if a == Double::Nan {
        b
    } else if b == Double::Nan {
        a
    } else if below(a, b) {
        b
    } else {
        a
    }
}

/// The smaller of two values; the other one where one is no number.
pub open spec fn smaller_of(a: Double, b: Double) -> Double {
    if a == Double::Nan {
        b
    } else if b == Double::Nan {
        a
    } else if below(b, a) {
        b
    } else {
        a
    }
}

/// The whole number that a value is cut down to, held between zero and a
/// limit; zero of what is no number.
pub open spec fn whole_of(a: Double, limit: nat) -> nat {
    match a {
        Double::Nan => 0,
        Double::Infinite { negative } => if negative {
            0
        } else {
            limit
        },
        Double::Finite { negative, value } => if negative {
            0
        } else if value.scaled() / one() > limit {
            limit
        } else {
            value.scaled() / one()
        },
    }
}

/// Whether a value is zero, with either sign.
pub open spec fn is_nothing(a: Double) -> bool {
    a is Finite && a->value.scaled() == 0
}

/// A whole number in double precision.
pub open spec fn of_int(n: int) -> Double {
    rounded(n < 0, magnitude(n), 1)
}

/// The value that 64 bits stand for.
pub open spec fn of_bits(bits: u64) -> Double {
    let negative = bits / 0x8000_0000_0000_0000 == 1;
    let exponent = (bits / 0x10_0000_0000_0000) % 2048;
    let fraction = bits % 0x10_0000_0000_0000;
    if exponent == 2047 {
        if fraction == 0 {
            Double::Infinite { negative }
        } else {
            Double::Nan
        }
    } else if exponent == 0 {
        Double::Finite { negative, value: Float64 { mantissa: fraction, unit: 0 } }
    } else {
        Double::Finite {
            negative,
            value: Float64 {
                mantissa: (fraction + TWO_52) as u64,
                unit: (exponent - 1) as u32,
            },
        }
    }
}

/// The bits that stand for a value.
pub open spec fn bits_of(a: Double) -> u64 {
    match a {
        Double::Nan => 0x7ff8_0000_0000_0000,
        Double::Infinite { negative } => if negative {
            0xfff0_0000_0000_0000
        } else {
            0x7ff0_0000_0000_0000
        },
        Double::Finite { negative, value } => {
            let sign: int = if negative {
                0x8000_0000_0000_0000
            } else {
                0
            };
            if value.mantissa < TWO_52 {
                (sign + value.mantissa) as u64
            } else {
                (sign + (value.unit + 1) * 0x10_0000_0000_0000 + (value.mantissa - TWO_52)) as u64
            }
        },
    }
}

/// The value that a text writes.
pub open spec fn of_text(s: Seq<char>) -> Option<Double> {
    match float_text::float_form(s) {
        Some(FloatForm::Nan) => Some(Double::Nan),
        Some(FloatForm::Infinite { negative }) => Some(Double::Infinite { negative }),
        Some(FloatForm::Number { negative, digits, exponent }) => Some(
            rounded(
                negative,
                float_text::numerator(digits, exponent),
                float_text::denominator(exponent),
            ),
        ),
        None => None,
    }
}

/// The text of a value with a fixed number of decimals.
pub open spec fn fixed(a: Double, decimals: nat) -> Seq<char> {
    match a {
        Double::Nan => "NaN"@,
        Double::Infinite { negative } => if negative {
            "-inf"@
        } else {
            "inf"@
        },
        Double::Finite { negative, value } => if negative {
            seq!['-'] + float64::decimal_text(value, decimals)
        } else {
            float64::decimal_text(value, decimals)
        },
    }
}

/// Puts a sign to a rounded magnitude.
fn with_sign(negative: bool, r: Option<Float64>, Ghost(num): Ghost<nat>, Ghost(den): Ghost<nat>) -> (x:
    Double)
    requires
        float64::is_nearest(r, num, den),
    ensures
        x == rounded(negative, num, den),
        x.wf(),
{
    match r {
        Some(value) => Double::Finite { negative, value },
        None => Double::Infinite { negative },
    }
}

/// A power of two that fits in 128 bits.
fn two_to(t: u32) -> (r: u128)
    requires
        t <= 110,
    ensures
        r == power2::pow2(t as nat),
        1 <= r <= 0x4000_0000_0000_0000_0000_0000_0000,
{
    let mut r: u128 = 1;
    let mut i: u32 = 0;
    proof {
        float64::lemma_bounds();
        power2::lemma_pow2_adds(55, 55);
        power2::lemma2_to64_rest();
    }
    while i < t
        invariant
            i <= t <= 110,
            r == power2::pow2(i as nat),
            power2::pow2(110) == 0x4000_0000_0000_0000_0000_0000_0000,
        decreases t - i,
    {
        proof {
            float64::lemma_pow2_next(i as nat);
            float64::lemma_pow2_monotone(i as nat, 109);
            float64::lemma_pow2_next(109);
        }
        r = r * 2;
        i = i + 1;
    }
    proof {
        float64::lemma_pow2_monotone(t as nat, 110);
        float64::lemma_pow2_next(t as nat);
    }
    r
}

/// A magnitude changed by less than a quarter of its last place rounds back to
/// itself.
proof fn lemma_absorbs(x: Float64, e: nat, less: bool)
    requires
        x.wf(),
        x.unit >= 2,
        4 * e < power2::pow2(x.unit as nat),
    ensures
        ({
            let v = if less {
                (x.scaled() - e) as nat
            } else {
                x.scaled() + e
            };
            &&& v > 0
            &&& float64::nearest(v, one()) == (x.mantissa as nat, x.unit as nat)
        }),
    decreases if less {
        1int
    } else {
        0int
    },
{
    float64::lemma_bounds();
    let k = x.unit as nat;
    let p = power2::pow2(k);
    let o = one();
    let m = x.mantissa as nat;
    float64::lemma_pow2_next(k);
    float64::lemma_pow2_next(float64::smallest());
    assert(m * p >= p) by (nonlinear_arith)
        requires
            m >= 1,
            p >= 1,
    ;
    if !less {
        let v = x.scaled() + e;
        assert(v * o < o * p * TWO_53) by (nonlinear_arith)
            requires
                v == m * p + e,
                e < p,
                m + 1 <= TWO_53,
                o >= 1,
                p >= 1,
        ;
        assert(v * o >= o * p * TWO_52) by (nonlinear_arith)
            requires
                v >= m * p,
                m >= TWO_52,
                o >= 1,
                p >= 1,
        ;
        assert(float64::unit_fits(v, o, k));
        float64::lemma_unit_is(v, o, k);
        assert((v * o) * p == v * (o * p)) by (nonlinear_arith);
        assert(o * p > 0) by (nonlinear_arith)
            requires
                o >= 1,
                p >= 1,
        ;
        float64::lemma_half_even_same(v * o, o * p, v, p);
        div_mod::lemma_fundamental_div_mod_converse(v as int, p as int, m as int, e as int);
    } else if m > TWO_52 {
        let v = (x.scaled() - e) as nat;
        let q = (m - 1) as nat;
        assert(q * p == m * p - p) by (nonlinear_arith)
            requires
                q == m - 1,
        ;
        if e == 0 {
            lemma_absorbs(x, 0, false);
        } else {
            assert(v * o < o * p * TWO_53) by (nonlinear_arith)
                requires
                    v <= m * p,
                    m < TWO_53,
                    o >= 1,
                    p >= 1,
            ;
            assert(v * o >= o * p * TWO_52) by (nonlinear_arith)
                requires
                    v >= q * p,
                    q >= TWO_52,
                    o >= 1,
                    p >= 1,
            ;
            assert(float64::unit_fits(v, o, k));
            float64::lemma_unit_is(v, o, k);
            assert((v * o) * p == v * (o * p)) by (nonlinear_arith);
            assert(o * p > 0) by (nonlinear_arith)
                requires
                    o >= 1,
                    p >= 1,
            ;
            float64::lemma_half_even_same(v * o, o * p, v, p);
            div_mod::lemma_fundamental_div_mod_converse(v as int, p as int, q as int, p - e);
        }
    } else {
        let v = (x.scaled() - e) as nat;
        if e == 0 {
            lemma_absorbs(x, 0, false);
        } else {
            let j = (k - 1) as nat;
            let h = power2::pow2(j);
            float64::lemma_pow2_next(j);
            assert(p == 2 * h);
            let q = (TWO_53 - 1) as nat;
            assert(m * p == TWO_53 * h) by (nonlinear_arith)
                requires
                    m == TWO_52,
                    TWO_53 == 2 * TWO_52,
                    p == 2 * h,
            ;
            assert(q * h == TWO_53 * h - h) by (nonlinear_arith)
                requires
                    q == TWO_53 - 1,
            ;
            assert(v * o < o * h * TWO_53) by (nonlinear_arith)
                requires
                    v < TWO_53 * h,
                    o >= 1,
            ;
            assert(v * o >= o * h * TWO_52) by (nonlinear_arith)
                requires
                    v >= q * h,
                    q >= TWO_52,
                    o >= 1,
                    h >= 1,
            ;
            assert(float64::unit_fits(v, o, j));
            float64::lemma_unit_is(v, o, j);
            assert((v * o) * h == v * (o * h)) by (nonlinear_arith);
            assert(o * h > 0) by (nonlinear_arith)
                requires
                    o >= 1,
                    h >= 1,
            ;
            float64::lemma_half_even_same(v * o, o * h, v, h);
            div_mod::lemma_fundamental_div_mod_converse(v as int, h as int, q as int, h - e);
            assert(float64::half_even(v, h) == TWO_53);
        }
    }
}

/// The sum of two finite doubles, the first with the larger unit.
fn sum_finite(a_negative: bool, a: Float64, b_negative: bool, b: Float64) -> (r: Double)
    requires
        a.wf(),
        b.wf(),
        a.unit >= b.unit,
    ensures
        r == sum_of(
            Double::Finite { negative: a_negative, value: a },
            Double::Finite { negative: b_negative, value: b },
        ),
        r.wf(),
{
    let ghost s = float64::signed_scaled(a_negative, a) + float64::signed_scaled(b_negative, b);
    let gap: u32 = a.unit - b.unit;
    let ghost pa = power2::pow2(a.unit as nat);
    let ghost pb = power2::pow2(b.unit as nat);
    proof {
        float64::lemma_bounds();
        float64::lemma_pow2_next(a.unit as nat);
        float64::lemma_pow2_next(b.unit as nat);
        power2::lemma_pow2_adds(b.unit as nat, gap as nat);
    }
    if gap >= 55 {
        proof {
            float64::lemma_pow2_monotone(55, gap as nat);
            power2::lemma_pow2_adds(53, 2);
            power2::lemma2_to64();
            let g = power2::pow2(gap as nat);
            let e = b.scaled();
            let n = b.mantissa as nat;
            assert(4 * (n * pb) < pb * g) by (nonlinear_arith)
                requires
                    n < TWO_53,
                    g >= 4 * TWO_53,
                    pb >= 1,
            ;
            lemma_absorbs(a, e, a_negative != b_negative);
            let am = a.mantissa as nat;
            assert(am * pa >= pa) by (nonlinear_arith)
                requires
                    am >= 1,
                    pa >= 1,
            ;
            assert(e < a.scaled());
            assert((s < 0) == a_negative);
            assert(magnitude(s) == if a_negative != b_negative {
                a.scaled() - e
            } else {
                (a.scaled() + e) as int
            });
        }
        return Double::Finite { negative: a_negative, value: a };
    }
    let p: u128 = two_to(gap);
    proof {
        float64::lemma_pow2_monotone(gap as nat, 54);
        power2::lemma_pow2_adds(53, 1);
        power2::lemma2_to64();
        assert(power2::pow2(54) == 0x40_0000_0000_0000);
        assert(a.mantissa * p < 0x20_0000_0000_0000 * 0x40_0000_0000_0000) by (nonlinear_arith)
            requires
                a.mantissa < 0x20_0000_0000_0000,
                0 < p <= 0x40_0000_0000_0000,
        ;
    }
    let m: u128 = a.mantissa as u128 * p;
    let n: u128 = b.mantissa as u128;
    proof {
        assert(m as nat * pb == a.mantissa as nat * pa) by (nonlinear_arith)
            requires
                m == a.mantissa * p,
                pa == pb * p,
        ;
        assert(float64::signed_scaled(a_negative, a) == if a_negative {
            -(m * pb)
        } else {
            m * pb
        });
        assert(float64::signed_scaled(b_negative, b) == if b_negative {
            -(n * pb)
        } else {
            n * pb
        });
    }
    let (negative, total): (bool, u128) = if a_negative == b_negative {
        (a_negative, m + n)
    } else if m >= n {
        (a_negative, m - n)
    } else {
        (b_negative, n - m)
    };
    proof {
        assert(magnitude(s) == total * pb) by {
            assert(m * pb + n * pb == (m + n) * pb) by (nonlinear_arith);
            if m >= n {
                assert(m * pb - n * pb == (m - n) * pb) by (nonlinear_arith);
                assert((m - n) * pb >= 0) by (nonlinear_arith)
                    requires
                        m >= n,
                ;
            } else {
                assert(n * pb - m * pb == (n - m) * pb) by (nonlinear_arith);
                assert((n - m) * pb >= 0) by (nonlinear_arith)
                    requires
                        n >= m,
                ;
            }
        }
        assert((total * pb == 0) == (total == 0)) by (nonlinear_arith)
            requires
                pb >= 1,
        ;
    }
    if total == 0 {
        return Double::Finite {
            negative: a_negative && b_negative,
            value: Float64 { mantissa: 0, unit: 0 },
        };
    }
    proof {
        assert(total * pb > 0) by (nonlinear_arith)
            requires
                total > 0,
                pb >= 1,
        ;
        float64::lemma_pow2_next(float64::smallest());
        let o = one();
        assert(total * (o * pb) == (total * pb) * o * 1) by (nonlinear_arith);
        assert((s < 0) == negative) by {
            if a_negative != b_negative && m >= n {
                assert(m * pb > n * pb) by (nonlinear_arith)
                    requires
                        m > n,
                        pb >= 1,
                ;
            } else if a_negative != b_negative {
                assert(n * pb > m * pb) by (nonlinear_arith)
                    requires
                        n > m,
                        pb >= 1,
                ;
            } else {
                assert(m * pb >= 0 && n * pb >= 0) by (nonlinear_arith)
                    requires
                        m >= 0,
                        n >= 0,
                        pb >= 1,
                ;
            }
        }
    }
    let r: Option<Float64> = float64::round_scaled(
        total,
        1,
        b.unit,
        Ghost(magnitude(s)),
        Ghost(one()),
    );
    with_sign(negative, r, Ghost(magnitude(s)), Ghost(one()))
}

/// The product of two finite doubles.
fn product_finite(negative: bool, a: Float64, b: Float64) -> (r: Double)
    requires
        a.wf(),
        b.wf(),
    ensures
        r == rounded(negative, a.scaled() * b.scaled(), one() * one()),
        r.wf(),
{
    let ghost num = a.scaled() * b.scaled();
    let ghost den = one() * one();
    let ghost o = one();
    let ghost pa = power2::pow2(a.unit as nat);
    let ghost pb = power2::pow2(b.unit as nat);
    let m: u128 = a.mantissa as u128;
    let n: u128 = b.mantissa as u128;
    proof {
        float64::lemma_bounds();
        float64::lemma_pow2_next(float64::smallest());
        assert(m * n < 0x20_0000_0000_0000 * 0x20_0000_0000_0000) by (nonlinear_arith)
            requires
                m < 0x20_0000_0000_0000,
                n < 0x20_0000_0000_0000,
        ;
        assert(den > 0) by (nonlinear_arith)
            requires
                den == o * o,
                o >= 1,
        ;
        power2::lemma_pow2_adds(a.unit as nat, b.unit as nat);
        assert(num == (m * n) * (pa * pb)) by (nonlinear_arith)
            requires
                num == (m * pa) * (n * pb),
        ;
    }
    let product: u128 = m * n;
    let unit: u32 = a.unit + b.unit;
    let ghost pu = power2::pow2(unit as nat);
    if unit >= 1074 {
        let u: u32 = unit - 1074;
        if u > MAX_UNIT {
            proof {
                assert(m * n >= TWO_52 * TWO_52) by (nonlinear_arith)
                    requires
                        m >= TWO_52,
                        n >= TWO_52,
                ;
                power2::lemma_pow2_adds(1074, u as nat);
                let w = power2::pow2(u as nat);
                assert(num * o >= den * w * TWO_53) by (nonlinear_arith)
                    requires
                        num == product * (o * w),
                        den == o * o,
                        product >= TWO_53,
                        o >= 1,
                        w >= 0,
                ;
                float64::lemma_unit_above(num, den, u as nat);
            }
            return Double::Infinite { negative };
        }
        proof {
            power2::lemma_pow2_adds(1074, u as nat);
            let w = power2::pow2(u as nat);
            assert(product * (den * w) == num * o * 1) by (nonlinear_arith)
                requires
                    den == o * o,
                    num == product * pu,
                    pu == o * w,
            ;
        }
        let r: Option<Float64> = float64::round_scaled(product, 1, u, Ghost(num), Ghost(den));
        return with_sign(negative, r, Ghost(num), Ghost(den));
    }
    let t: u32 = 1074 - unit;
    proof {
        power2::lemma_pow2_adds(unit as nat, t as nat);
    }
    if t <= 54 {
        let d: u128 = two_to(t);
        proof {
            float64::lemma_pow2_monotone(t as nat, 54);
            power2::lemma2_to64();
            power2::lemma2_to64_rest();
            assert(product * (den * 1) == num * o * d) by (nonlinear_arith)
                requires
                    den == o * o,
                    num == product * pu,
                    o == pu * d,
            ;
        }
        let r: Option<Float64> = float64::round_scaled(product, d, 0, Ghost(num), Ghost(den));
        return with_sign(negative, r, Ghost(num), Ghost(den));
    }
    let k: u64 = tiny(product, t);
    proof {
        let d = power2::pow2(t as nat);
        float64::lemma_pow2_next(t as nat);
        assert(product * den == (num * o) * d) by (nonlinear_arith)
            requires
                den == o * o,
                num == product * pu,
                o == pu * d,
        ;
        float64::lemma_pow2_monotone(55, t as nat);
        power2::lemma2_to64();
        power2::lemma2_to64_rest();
        assert(num * o < den * 1 * TWO_53) by (nonlinear_arith)
            requires
                product * den == (num * o) * d,
                product < d * TWO_53,
                den > 0,
                d > 0,
        ;
        assert(float64::unit_fits(num, den, 0));
        float64::lemma_unit_is(num, den, 0);
        assert((num * o) * d == product * (den * 1));
        float64::lemma_half_even_same(num * o, den * 1, product as nat, d);
    }
    let r: Option<Float64> = float64::from_rounded(k, 0);
    with_sign(negative, r, Ghost(num), Ghost(den))
}

/// A fraction with a divisor of at least 2^55, rounded.
fn tiny(n: u128, t: u32) -> (r: u64)
    requires
        n < 0x400_0000_0000_0000_0000_0000_0000,
        55 <= t,
    ensures
        r == float64::half_even(n as nat, power2::pow2(t as nat)),
        r <= TWO_52,
{
    proof {
        float64::lemma_bounds();
        float64::lemma_pow2_next(t as nat);
        power2::lemma_pow2_adds(55, 55);
        power2::lemma2_to64();
        power2::lemma2_to64_rest();
    }
    if t > 110 {
        proof {
            float64::lemma_pow2_monotone(110, t as nat);
            div_mod::lemma_basic_div(n as int, power2::pow2(t as nat) as int);
            div_mod::lemma_small_mod(n as nat, power2::pow2(t as nat));
        }
        return 0;
    }
    let d: u128 = two_to(t);
    proof {
        float64::lemma_pow2_monotone(55, t as nat);
        assert(n / d <= n / 0x80_0000_0000_0000) by (nonlinear_arith)
            requires
                d >= 0x80_0000_0000_0000,
                n >= 0,
        ;
    }
    let q: u128 = n / d;
    let rest: u128 = n % d;
    if 2 * rest > d || (2 * rest == d && q % 2 == 1) {
        q as u64 + 1
    } else {
        q as u64
    }
}

/// A small power of two times a digit string: the digits of `m * 2^t`.
fn doubled_digits(m: u64, t: u32) -> (r: Vec<u8>)
    ensures
        float64::are_digits(r@),
        float64::low_first_value(r@) == m as nat * power2::pow2(t as nat),
{
    let mut digits: Vec<u8> = Vec::new();
    let mut rest: u64 = m;
    proof {
        float64::lemma_tens_next(0);
        assert(m as nat * 1 == m);
    }
    while rest > 0
        invariant
            float64::are_digits(digits@),
            m as nat == float64::low_first_value(digits@) + rest as nat * float64::tens(
                digits@.len(),
            ),
        decreases rest,
    {
        let d: u8 = (rest % 10) as u8;
        proof {
            float64::lemma_low_first_push(digits@, d);
            float64::lemma_tens_next(digits@.len());
            let t = float64::tens(digits@.len());
            let q = (rest / 10) as nat;
            assert(rest as nat * t == d as nat * t + q * (10 * t)) by (nonlinear_arith)
                requires
                    rest == 10 * q + d,
            ;
        }
        let ghost before = digits@;
        digits.push(d);
        assert(float64::are_digits(digits@)) by {
            assert forall|j: int| 0 <= j < digits@.len() implies (#[trigger] digits@[j]) < 10 by {
                if j < before.len() {
                    assert(digits@[j] == before[j]);
                }
            }
        }
        rest = rest / 10;
    }
    proof {
        assert(0 * float64::tens(digits@.len()) == 0);
        power2::lemma2_to64();
        assert(m as nat * 1 == m);
    }
    let mut i: u32 = 0;
    while i < t
        invariant
            i <= t,
            float64::are_digits(digits@),
            float64::low_first_value(digits@) == m as nat * power2::pow2(i as nat),
        decreases t - i,
    {
        digits = float64::times(&digits, 2);
        proof {
            float64::lemma_pow2_next(i as nat);
            let p = power2::pow2(i as nat);
            assert(2 * (m as nat * p) == m as nat * (2 * p)) by (nonlinear_arith);
        }
        i = i + 1;
    }
    digits
}

/// The characters of digits, the highest first.
pub open spec fn high_first(s: Seq<u8>) -> Seq<char>
    decreases s.len(),
{
    if s.len() == 0 {
        Seq::empty()
    } else {
        high_first(s.skip(1)).push(number::digit_char(s[0] as nat))
    }
}

/// Digits whose highest one is not zero are the number's text.
proof fn lemma_digits_text(s: Seq<u8>)
    requires
        float64::are_digits(s),
        s.len() > 0,
        s.last() != 0,
    ensures
        number::nat_text(float64::low_first_value(s)) == high_first(s),
        float64::low_first_value(s) > 0,
    decreases s.len(),
{
    float64::lemma_low_first_head(s);
    let rest = s.skip(1);
    reveal_with_fuel(high_first, 2);
    reveal_with_fuel(float64::low_first_value, 2);
    if s.len() == 1 {
        assert(rest =~= Seq::<u8>::empty());
        assert(high_first(s) =~= seq![number::digit_char(s[0] as nat)]);
    } else {
        assert forall|j: int| 0 <= j < rest.len() implies (#[trigger] rest[j]) < 10 by {
            assert(rest[j] == s[j + 1]);
        }
        assert(rest.last() == s.last());
        lemma_digits_text(rest);
        let v = float64::low_first_value(s);
        let w = float64::low_first_value(rest);
        assert(v / 10 == w && v % 10 == s[0]);
    }
}

/// The text of the number that digits write, the lowest first.
fn digits_text(digits: Vec<u8>) -> (r: String)
    requires
        float64::are_digits(digits@),
    ensures
        r@ == number::nat_text(float64::low_first_value(digits@)),
{
    let ghost value = float64::low_first_value(digits@);
    let mut digits: Vec<u8> = digits;
    while digits.len() > 0 && digits[digits.len() - 1] == 0
        invariant
            float64::are_digits(digits@),
            float64::low_first_value(digits@) == value,
        decreases digits@.len(),
    {
        let ghost before = digits@;
        let _top = digits.pop();
        proof {
            assert(digits@ =~= before.drop_last());
            assert(0 * float64::tens((before.len() - 1) as nat) == 0);
        }
    }
    if digits.len() == 0 {
        let mut out: String = String::new();
        out.push('0');
        assert(out@ =~= number::nat_text(0));
        return out;
    }
    proof {
        lemma_digits_text(digits@);
    }
    let mut out: String = String::new();
    let mut i: usize = digits.len();
    assert(digits@.skip(i as int) =~= Seq::<u8>::empty());
    while i > 0
        invariant
            i <= digits@.len(),
            float64::are_digits(digits@),
            out@ == high_first(digits@.skip(i as int)),
        decreases i,
    {
        i = i - 1;
        out.push(number::digit_of(digits[i]));
        proof {
            let s = digits@.skip(i as int);
            assert(s.skip(1) =~= digits@.skip(i + 1));
        }
    }
    assert(digits@.skip(0) =~= digits@);
    out
}

/// The digits of a number times a power of five, the lowest first.
fn fived_digits(m: u64, t: u32) -> (r: Vec<u8>)
    ensures
        float64::are_digits(r@),
        float64::low_first_value(r@) == m as nat * power::pow(5, t as nat),
{
    let mut digits: Vec<u8> = doubled_digits(m, 0);
    proof {
        power2::lemma2_to64();
        power::lemma_pow0(5);
        assert(m as nat * 1 == m);
    }
    let mut i: u32 = 0;
    while i < t
        invariant
            i <= t,
            float64::are_digits(digits@),
            float64::low_first_value(digits@) == m as nat * power::pow(5, i as nat),
        decreases t - i,
    {
        digits = float64::times(&digits, 5);
        proof {
            reveal(power::pow);
            let p = power::pow(5, i as nat);
            assert(power::pow(5, (i + 1) as nat) == 5 * p);
            assert(5 * (m as nat * p) == m as nat * (5 * p)) by (nonlinear_arith);
        }
        i = i + 1;
    }
    digits
}

/// A double that is counted in a power of two is counted in a power of ten too.
proof fn lemma_counted_in_tens(m: nat, unit: nat)
    requires
        unit <= 1074,
    ensures
        ({
            let t = (1074 - unit) as nat;
            (m * power::pow(5, t)) * power2::pow2(1074) == m * (float64::tens(t) * power2::pow2(
                unit,
            ))
        }),
{
    let t = (1074 - unit) as nat;
    power::lemma_pow_distributes(5, 2, t);
    power2::lemma_pow2(t);
    power2::lemma_pow2_adds(t, unit);
    power::lemma_pow_positive(10, t);
    let f = power::pow(5, t);
    let p = power2::pow2(t) as int;
    let q = power2::pow2(unit) as int;
    assert((m * f) * (p * q) == m * ((f * p) * q)) by (nonlinear_arith);
}

fn whole_magnitude(x: Float64) -> (r: usize)
    requires
        x.wf(),
    ensures
        r == if x.scaled() / one() > usize::MAX {
            usize::MAX as nat
        } else {
            x.scaled() / one()
        },
{
    proof {
        float64::lemma_pow2_next(float64::smallest());
    }
    if x.unit < 1074 {
        let down: u32 = 1074 - x.unit;
        proof {
            let p = power2::pow2(x.unit as nat);
            let q = power2::pow2(down as nat);
            power2::lemma_pow2_adds(x.unit as nat, down as nat);
            float64::lemma_pow2_next(x.unit as nat);
            float64::lemma_pow2_next(down as nat);
            div_mod::lemma_div_denominator((x.mantissa * p) as int, p as int, q as int);
            div_mod::lemma_div_multiples_vanish(x.mantissa as int, p as int);
            assert(x.mantissa * p == p * x.mantissa) by (nonlinear_arith);
            assert(x.scaled() / one() == x.mantissa as nat / q);
        }
        if down >= 64 {
            proof {
                float64::lemma_pow2_monotone(64, down as nat);
                power2::lemma2_to64();
                div_mod::lemma_basic_div(
                    x.mantissa as int,
                    power2::pow2(down as nat) as int,
                );
            }
            return 0;
        }
        proof {
            vstd::bits::lemma_u64_shr_is_div(x.mantissa, down as u64);
        }
        let whole: u64 = x.mantissa >> down as u64;
        return if whole > usize::MAX as u64 {
            usize::MAX
        } else {
            whole as usize
        };
    }
    let up: u32 = x.unit - 1074;
    let mut whole: u128 = x.mantissa as u128;
    let mut i: u32 = 0;
    proof {
        let p = power2::pow2(up as nat);
        power2::lemma_pow2_adds(1074, up as nat);
        power2::lemma_pow2(0);
        power2::lemma2_to64();
        let o = one();
        assert(x.scaled() == (x.mantissa as nat * p) * o) by (nonlinear_arith)
            requires
                x.scaled() == x.mantissa as nat * (o * p),
        ;
        div_mod::lemma_div_multiples_vanish((x.mantissa as nat * p) as int, o as int);
        assert((x.mantissa as nat * p) * o == o * (x.mantissa as nat * p)) by (nonlinear_arith);
        assert(x.mantissa as nat * power2::pow2(0) == x.mantissa);
    }
    while i < up && whole <= u64::MAX as u128
        invariant
            i <= up,
            whole == x.mantissa as nat * power2::pow2(i as nat),
            i > 0 ==> whole <= 2 * u64::MAX,
            x.mantissa <= u64::MAX,
        decreases up - i,
    {
        proof {
            float64::lemma_pow2_next(i as nat);
            let m = x.mantissa as nat;
            let p = power2::pow2(i as nat);
            assert(m * (2 * p) == 2 * (m * p)) by (nonlinear_arith);
        }
        whole = whole * 2;
        i = i + 1;
    }
    proof {
        float64::lemma_pow2_monotone(i as nat, up as nat);
        let m = x.mantissa as nat;
        let p = power2::pow2(i as nat);
        let q = power2::pow2(up as nat);
        assert(m * p <= m * q) by (nonlinear_arith)
            requires
                p <= q,
        ;
    }
    if whole > usize::MAX as u128 {
        usize::MAX
    } else {
        whole as usize
    }
}

/// A double that is not negative, with a fixed number of decimals.
pub fn format_magnitude(x: Float64, decimals: u32) -> (r: String)
    requires
        x.wf(),
        decimals <= 6,
    ensures
        r@ == float64::decimal_text(x, decimals as nat),
{
    let scale: u64 = float64::small_tens(decimals);
    proof {
        reveal_strlit(".");
        assert("."@ =~= seq!['.']);
    }
    if x.unit < 1074 {
        let q: u128 = float64::shifted(x, decimals);
        if decimals == 0 {
            return number::u128_text(q);
        }
        let whole: String = number::u128_text(q / scale as u128);
        let part: String = number::padded((q % scale as u128) as u64, decimals as usize);
        return text::concat3(whole.as_str(), ".", part.as_str());
    }
    let digits: Vec<u8> = doubled_digits(x.mantissa, x.unit - 1074);
    let ghost n = x.mantissa as nat * power2::pow2((x.unit - 1074) as nat);
    let ghost s = float64::tens(decimals as nat);
    proof {
        power2::lemma_pow2_adds(1074, (x.unit - 1074) as nat);
        float64::lemma_pow2_next(1074);
        let w = power2::pow2((x.unit - 1074) as nat);
        let m = x.mantissa as nat;
        assert((m * (one() * w)) * s == (n * s) * one()) by (nonlinear_arith)
            requires
                n == m * w,
        ;
        float64::lemma_half_even_exact(n * s, one());
        float64::lemma_tens_next(decimals as nat);
        div_mod::lemma_div_by_multiple(n as int, s as int);
        div_mod::lemma_mod_multiples_basic(n as int, s as int);
    }
    let whole: String = digits_text(digits);
    if decimals == 0 {
        assert(n * s == n) by (nonlinear_arith)
            requires
                s == 1,
        ;
        return whole;
    }
    let part: String = number::padded(0, decimals as usize);
    text::concat3(whole.as_str(), ".", part.as_str())
}

impl Double {
    /// The sum in double precision.
    pub fn plus(self, other: Self) -> (r: Self)
        requires
            self.wf(),
            other.wf(),
        ensures
            r == sum_of(self, other),
            r.wf(),
    {
        match (self, other) {
            (Double::Nan, _) => Double::Nan,
            (_, Double::Nan) => Double::Nan,
            (Double::Infinite { negative: x }, Double::Infinite { negative: y }) => {
                if x == y {
                    self
                } else {
                    Double::Nan
                }
            },
            (Double::Infinite { .. }, _) => self,
            (_, Double::Infinite { .. }) => other,
            (
                Double::Finite { negative: x, value: p },
                Double::Finite { negative: y, value: q },
            ) => {
                if p.unit >= q.unit {
                    sum_finite(x, p, y, q)
                } else {
                    sum_finite(y, q, x, p)
                }
            },
        }
    }

    /// The value with the other sign.
    pub fn negate(self) -> (r: Self)
        requires
            self.wf(),
        ensures
            r == negated(self),
            r.wf(),
    {
        match self {
            Double::Nan => Double::Nan,
            Double::Infinite { negative } => Double::Infinite { negative: !negative },
            Double::Finite { negative, value } => Double::Finite { negative: !negative, value },
        }
    }

    /// The difference in double precision.
    pub fn minus(self, other: Self) -> (r: Self)
        requires
            self.wf(),
            other.wf(),
        ensures
            r == difference_of(self, other),
            r.wf(),
    {
        self.plus(other.negate())
    }

    /// The product in double precision.
    pub fn times(self, other: Self) -> (r: Self)
        requires
            self.wf(),
            other.wf(),
        ensures
            r == product_of(self, other),
            r.wf(),
    {
        match (self, other) {
            (Double::Nan, _) => Double::Nan,
            (_, Double::Nan) => Double::Nan,
            (Double::Infinite { negative: x }, Double::Infinite { negative: y }) => {
                Double::Infinite { negative: x != y }
            },
            (Double::Infinite { negative: x }, Double::Finite { negative: y, value }) => {
                if value.mantissa == 0 {
                    Double::Nan
                } else {
                    Double::Infinite { negative: x != y }
                }
            },
            (Double::Finite { negative: x, value }, Double::Infinite { negative: y }) => {
                if value.mantissa == 0 {
                    Double::Nan
                } else {
                    Double::Infinite { negative: x != y }
                }
            },
            (
                Double::Finite { negative: x, value: p },
                Double::Finite { negative: y, value: q },
            ) => product_finite(x != y, p, q),
        }
    }

    /// The quotient by a positive integer in double precision.
    pub fn over(self, divisor: u64) -> (r: Self)
        requires
            self.wf(),
            0 < divisor <= 0x100_0000_0000,
        ensures
            r == divided_by(self, divisor as nat),
            r.wf(),
    {
        match self {
            Double::Nan => Double::Nan,
            Double::Infinite { .. } => self,
            Double::Finite { negative, value } => {
                let ghost num = value.scaled();
                let ghost den = one() * divisor as nat;
                proof {
                    float64::lemma_bounds();
                    float64::lemma_pow2_next(float64::smallest());
                    let p = power2::pow2(value.unit as nat);
                    let m = value.mantissa as nat;
                    let o = one();
                    let d = divisor as nat;
                    assert(m * (den * p) == num * o * d) by (nonlinear_arith)
                        requires
                            den == o * d,
                            num == m * p,
                    ;
                    assert(den > 0) by (nonlinear_arith)
                        requires
                            den == o * d,
                            o >= 1,
                            d >= 1,
                    ;
                }
                let r: Option<Float64> = float64::round_scaled(
                    value.mantissa as u128,
                    divisor as u128,
                    value.unit,
                    Ghost(num),
                    Ghost(den),
                );
                with_sign(negative, r, Ghost(num), Ghost(den))
            },
        }
    }

    /// Whether this value is below another.
    pub fn is_below(self, other: Self) -> (r: bool)
        requires
            self.wf(),
            other.wf(),
        ensures
            r == below(self, other),
    {
        match (self, other) {
            (Double::Nan, _) => false,
            (_, Double::Nan) => false,
            (Double::Infinite { negative: x }, Double::Infinite { negative: y }) => x && !y,
            (Double::Infinite { negative: x }, _) => x,
            (_, Double::Infinite { negative: y }) => !y,
            (
                Double::Finite { negative: x, value: p },
                Double::Finite { negative: y, value: q },
            ) => float64::is_above(y, q, x, p),
        }
    }

    /// Whether this value is below another or equal to it.
    pub fn is_at_most(self, other: Self) -> (r: bool)
        requires
            self.wf(),
            other.wf(),
        ensures
            r == at_most(self, other),
    {
        match (self, other) {
            (Double::Nan, _) => false,
            (_, Double::Nan) => false,
            _ => !other.is_below(self),
        }
    }

    /// Zero.
    pub fn nothing() -> (r: Self)
        ensures
            r == zero(false),
            r.wf(),
    {
        Double::Finite { negative: false, value: Float64 { mantissa: 0, unit: 0 } }
    }

    /// The value without its sign.
    pub fn abs(self) -> (r: Self)
        requires
            self.wf(),
        ensures
            r == absolute(self),
            r.wf(),
    {
        match self {
            Double::Nan => Double::Nan,
            Double::Infinite { .. } => Double::Infinite { negative: false },
            Double::Finite { value, .. } => Double::Finite { negative: false, value },
        }
    }

    /// Whether this value is zero, with either sign.
    pub fn is_zero(self) -> (r: bool)
        requires
            self.wf(),
        ensures
            r == is_nothing(self),
    {
        match self {
            Double::Finite { value, .. } => {
                proof {
                    float64::lemma_pow2_next(value.unit as nat);
                    let p = power2::pow2(value.unit as nat);
                    let m = value.mantissa as nat;
                    assert((m * p == 0) == (m == 0)) by (nonlinear_arith)
                        requires
                            p >= 1,
                    ;
                }
                value.mantissa == 0
            },
            _ => false,
        }
    }

    /// The double nearest to a fraction.
    pub fn from_fraction(num: u64, den: u64) -> (r: Self)
        requires
            0 < den <= 0x100_0000_0000,
        ensures
            r == rounded(false, num as nat, den as nat),
            r.wf(),
    {
        let value: Float64 = float64::nearest_quotient(num as u128, den);
        Double::Finite { negative: false, value }
    }

    /// Whether this value is above zero.
    pub fn is_positive(self) -> (r: bool)
        requires
            self.wf(),
        ensures
            r == below(zero(false), self),
    {
        Double::nothing().is_below(self)
    }

    /// This value, or zero where it is below zero or no number.
    pub fn or_zero(self) -> (r: Self)
        requires
            self.wf(),
        ensures
            r == at_least_zero(self),
            r.wf(),
    {
        match self {
            Double::Nan => Double::nothing(),
            _ => {
                if self.is_below(Double::nothing()) {
                    Double::nothing()
                } else {
                    self
                }
            },
        }
    }

    /// A whole number in double precision.
    pub fn from_u64(n: u64) -> (r: Self)
        ensures
            r == of_int(n as int),
            r.wf(),
    {
        let value: Float64 = float64::nearest_quotient(n as u128, 1);
        Double::Finite { negative: false, value }
    }

    /// A whole number in double precision.
    pub fn from_i64(n: i64) -> (r: Self)
        ensures
            r == of_int(n as int),
            r.wf(),
    {
        if n < 0 {
            let value: Float64 = float64::nearest_quotient((-(n + 1)) as u128 + 1, 1);
            Double::Finite { negative: true, value }
        } else {
            Double::from_u64(n as u64)
        }
    }

    /// The value that 64 bits stand for.
    pub fn from_bits(bits: u64) -> (r: Self)
        ensures
            r == of_bits(bits),
            r.wf(),
    {
        let negative: bool = bits / 0x8000_0000_0000_0000 == 1;
        let exponent: u64 = (bits / 0x10_0000_0000_0000) % 2048;
        let fraction: u64 = bits % 0x10_0000_0000_0000;
        if exponent == 2047 {
            if fraction == 0 {
                Double::Infinite { negative }
            } else {
                Double::Nan
            }
        } else if exponent == 0 {
            Double::Finite { negative, value: Float64 { mantissa: fraction, unit: 0 } }
        } else {
            Double::Finite {
                negative,
                value: Float64 { mantissa: fraction + TWO_52, unit: (exponent - 1) as u32 },
            }
        }
    }

    /// The larger of two values.
    pub fn larger(self, other: Self) -> (r: Self)
        requires
            self.wf(),
            other.wf(),
        ensures
            r == larger_of(self, other),
            r.wf(),
    {
        if self.is_nan() {
            other
        } else if other.is_nan() {
            self
        } else if self.is_below(other) {
            other
        } else {
            self
        }
    }

    /// The smaller of two values.
    pub fn smaller(self, other: Self) -> (r: Self)
        requires
            self.wf(),
            other.wf(),
        ensures
            r == smaller_of(self, other),
            r.wf(),
    {
        if self.is_nan() {
            other
        } else if other.is_nan() {
            self
        } else if other.is_below(self) {
            other
        } else {
            self
        }
    }

    fn is_nan(self) -> (r: bool)
        ensures
            r == (self == Double::Nan),
    {
        match self {
            Double::Nan => true,
            _ => false,
        }
    }

    /// The whole number that this value is cut down to, as far as an index
    /// reaches.
    pub fn to_usize(self) -> (r: usize)
        requires
            self.wf(),
        ensures
            r == whole_of(self, usize::MAX as nat),
    {
        match self {
            Double::Nan => 0,
            Double::Infinite { negative } => {
                if negative {
                    0
                } else {
                    usize::MAX
                }
            },
            Double::Finite { negative, value } => {
                if negative {
                    0
                } else {
                    whole_magnitude(value)
                }
            },
        }
    }

    /// The bits that stand for this value.
    pub fn to_bits(self) -> (r: u64)
        requires
            self.wf(),
        ensures
            of_bits(r) == self,
            r == bits_of(self),
    {
        match self {
            Double::Nan => 0x7ff8_0000_0000_0000,
            Double::Infinite { negative } => {
                if negative {
                    0xfff0_0000_0000_0000
                } else {
                    0x7ff0_0000_0000_0000
                }
            },
            Double::Finite { negative, value } => {
                let sign: u64 = if negative {
                    0x8000_0000_0000_0000
                } else {
                    0
                };
                if value.mantissa < TWO_52 {
                    sign + value.mantissa
                } else {
                    sign + (value.unit as u64 + 1) * 0x10_0000_0000_0000 + (value.mantissa - TWO_52)
                }
            },
        }
    }

    /// The value that a text writes.
    pub fn from_text(s: &str) -> (r: Option<Self>)
        ensures
            r == of_text(s@),
            r matches Some(x) ==> x.wf(),
    {
        float_text::parse_float(s)
    }

    /// The text of this value with a fixed number of decimals.
    pub fn to_fixed(self, decimals: u32) -> (r: String)
        requires
            self.wf(),
            decimals <= 6,
        ensures
            r@ == fixed(self, decimals as nat),
    {
        match self {
            Double::Nan => "NaN".to_string(),
            Double::Infinite { negative } => {
                if negative {
                    "-inf".to_string()
                } else {
                    "inf".to_string()
                }
            },
            Double::Finite { negative, value } => {
                let digits: String = format_magnitude(value, decimals);
                if negative {
                    let mut out: String = String::new();
                    out.push('-');
                    out.append(digits.as_str());
                    assert(out@ =~= seq!['-'] + digits@);
                    out
                } else {
                    digits
                }
            },
        }
    }

    /// A decimal text that writes this value exactly.
    pub fn to_exact_text(self) -> (r: String)
        requires
            self is Finite,
            self.wf(),
        ensures
            of_text(r@) == Some(self),
    {
        let (negative, value): (bool, Float64) = match self {
            Double::Finite { negative, value } => (negative, value),
            _ => {
                return String::new();
            },
        };
        let places: u32 = if value.unit < 1074 {
            1074 - value.unit
        } else {
            0
        };
        let digits: Vec<u8> = if value.unit < 1074 {
            fived_digits(value.mantissa, places)
        } else {
            doubled_digits(value.mantissa, value.unit - 1074)
        };
        let ghost n = float64::low_first_value(digits@);
        proof {
            let m = value.mantissa as nat;
            float64::lemma_tens_next(places as nat);
            if value.unit < 1074 {
                lemma_counted_in_tens(m, value.unit as nat);
            } else {
                let up = (value.unit - 1074) as nat;
                power2::lemma_pow2_adds(1074, up);
                let z = power2::pow2(1074);
                let w = power2::pow2(up);
                assert((m * w) * z == m * (1 * (z * w))) by (nonlinear_arith);
            }
            float64::lemma_nearest_exact(
                n,
                float64::tens(places as nat),
                m,
                value.unit as nat,
            );
            number::lemma_nat_text(n);
            float_text::lemma_written_form(n, -(places as int), negative);
        }
        let mut body: String = digits_text(digits);
        body.push('e');
        let exponent: String = number::i64_text(-(places as i64));
        body.append(exponent.as_str());
        assert(body@ =~= number::nat_text(n) + seq!['e'] + exponent@);
        if negative {
            let mut out: String = String::new();
            out.push('-');
            out.append(body.as_str());
            assert(out@ =~= seq!['-'] + body@);
            out
        } else {
            body
        }
    }
}

/// A whole number that doubles hold is scaled exactly.
proof fn lemma_whole(n: int)
    requires
        -TWO_53 <= n <= TWO_53,
    ensures
        of_int(n) is Finite,
        of_int(n)->Finite_negative == (n < 0),
        of_int(n)->value.scaled() == magnitude(n) * one(),
        float64::signed_scaled(n < 0, of_int(n)->value) == n * one(),
        float64::nearest(magnitude(n), 1).0 * power2::pow2(float64::nearest(magnitude(n), 1).1)
            == magnitude(n) * one(),
        float64::nearest(magnitude(n), 1).0 < TWO_53,
        float64::nearest(magnitude(n), 1).1 == 0 || float64::nearest(magnitude(n), 1).0 >= TWO_52,
{
    float64::lemma_small_integer(magnitude(n));
    assert(n < 0 ==> -(magnitude(n) * one()) == n * one()) by (nonlinear_arith)
        requires
            n < 0 ==> magnitude(n) == -n,
    ;
}

/// A fraction that is a whole number rounds to that number.
proof fn lemma_whole_fraction(n: int, num: nat, den: nat)
    requires
        -TWO_53 <= n <= TWO_53,
        den > 0,
        num == magnitude(n) * den,
    ensures
        rounded(n < 0, num, den) == of_int(n),
{
    lemma_whole(n);
    let m = float64::nearest(magnitude(n), 1).0;
    let k = float64::nearest(magnitude(n), 1).1;
    let p = power2::pow2(k);
    let w = magnitude(n);
    assert(num * one() == m * (den * p)) by (nonlinear_arith)
        requires
            num == w * den,
            m * p == w * one(),
    ;
    float64::lemma_nearest_exact(num, den, m, k);
}

/// Whole numbers up to 2^53 are compared, added, subtracted and multiplied as
/// whole numbers, as long as the result is one of them.
pub proof fn law_whole_numbers_are_exact(a: int, b: int)
    requires
        -TWO_53 <= a <= TWO_53,
        -TWO_53 <= b <= TWO_53,
    ensures
        below(of_int(a), of_int(b)) <==> a < b,
        at_most(of_int(a), of_int(b)) <==> a <= b,
        -TWO_53 <= a + b <= TWO_53 ==> sum_of(of_int(a), of_int(b)) == of_int(a + b),
        -TWO_53 <= a - b <= TWO_53 && b != 0 ==> difference_of(of_int(a), of_int(b)) == of_int(
            a - b,
        ),
        0 <= a && 0 <= b && a * b <= TWO_53 ==> product_of(of_int(a), of_int(b)) == of_int(a * b),
        larger_of(of_int(a), of_int(b)) == of_int(
            if a < b {
                b
            } else {
                a
            },
        ),
        smaller_of(of_int(a), of_int(b)) == of_int(
            if b < a {
                b
            } else {
                a
            },
        ),
        at_least_zero(of_int(a)) == of_int(
            if a < 0 {
                0
            } else {
                a
            },
        ),
        is_nothing(of_int(a)) <==> a == 0,
        absolute(of_int(a)) == of_int(magnitude(a) as int),
{
    lemma_whole(a);
    lemma_whole(b);
    lemma_whole(0);
    lemma_whole(magnitude(a) as int);
    power2::lemma_pow2_pos(float64::smallest());
    let p = one();
    let zero_value = of_int(0)->value;
    assert(of_int(0) == zero(false)) by {
        float64::lemma_nearest_exact(0, 1, 0, 0);
    }
    assert(a * p < b * p <==> a < b) by (nonlinear_arith)
        requires
            p > 0,
    ;
    assert(a * p < 0 <==> a < 0) by (nonlinear_arith)
        requires
            p > 0,
    ;
    assert(b * p < a * p <==> b < a) by (nonlinear_arith)
        requires
            p > 0,
    ;
    assert(magnitude(a) * p == 0 <==> a == 0) by (nonlinear_arith)
        requires
            p > 0,
            magnitude(a) == if a < 0 {
                (-a) as nat
            } else {
                a as nat
            },
    ;
    if -TWO_53 <= a + b <= TWO_53 {
        lemma_whole_sum(a, b);
    }
    if -TWO_53 <= a - b <= TWO_53 && b != 0 {
        assert(negated(of_int(b)) == of_int(-b));
        lemma_whole(-b);
        lemma_whole_sum(a, -b);
    }
    if 0 <= a && 0 <= b && a * b <= TWO_53 {
        assert(a * b >= 0) by (nonlinear_arith)
            requires
                0 <= a,
                0 <= b,
        ;
        let x = a as nat;
        let y = b as nat;
        assert((x * p) * (y * p) == (x * y) * (p * p)) by (nonlinear_arith);
        assert(p * p > 0) by (nonlinear_arith)
            requires
                p > 0,
        ;
        lemma_whole_fraction(a * b, (x * p) * (y * p), p * p);
    }
}

/// The sum of two whole numbers is their sum.
proof fn lemma_whole_sum(a: int, b: int)
    requires
        -TWO_53 <= a <= TWO_53,
        -TWO_53 <= b <= TWO_53,
        -TWO_53 <= a + b <= TWO_53,
    ensures
        sum_of(of_int(a), of_int(b)) == of_int(a + b),
{
    lemma_whole(a);
    lemma_whole(b);
    power2::lemma_pow2_pos(float64::smallest());
    let p = one();
    let s = a * p + b * p;
    assert(s == (a + b) * p) by (nonlinear_arith)
        requires
            s == a * p + b * p,
    ;
    assert(s == 0 <==> a + b == 0) by (nonlinear_arith)
        requires
            s == (a + b) * p,
            p > 0,
    ;
    assert(s < 0 <==> a + b < 0) by (nonlinear_arith)
        requires
            s == (a + b) * p,
            p > 0,
    ;
    if s == 0 {
        float64::lemma_nearest_exact(0, 1, 0, 0);
    } else {
        let t = a + b;
        let w = magnitude(t);
        assert(magnitude(s) == w * p) by (nonlinear_arith)
            requires
                s == t * p,
                p > 0,
                magnitude(s) == if s < 0 {
                    (-s) as nat
                } else {
                    s as nat
                },
                w == if t < 0 {
                    (-t) as nat
                } else {
                    t as nat
                },
                s < 0 <==> t < 0,
        ;
        lemma_whole_fraction(t, magnitude(s), p);
    }
}

/// A whole number of parts, divided by as many, is that whole number.
pub proof fn law_division_undoes_multiplication(n: int, parts: nat)
    requires
        parts > 0,
        -TWO_53 <= n <= TWO_53,
        -TWO_53 <= n * parts <= TWO_53,
    ensures
        divided_by(of_int(n * parts), parts) == of_int(n),
{
    let whole = n * parts;
    lemma_whole(whole);
    power2::lemma_pow2_pos(float64::smallest());
    let p = one();
    let w = magnitude(n);
    assert((whole < 0) == (n < 0)) by (nonlinear_arith)
        requires
            whole == n * parts,
            parts > 0,
    ;
    assert(magnitude(whole) == w * parts) by (nonlinear_arith)
        requires
            whole == n * parts,
            (whole < 0) == (n < 0),
            magnitude(whole) == if whole < 0 {
                (-whole) as nat
            } else {
                whole as nat
            },
            w == if n < 0 {
                (-n) as nat
            } else {
                n as nat
            },
    ;
    assert(magnitude(whole) * p == w * (p * parts)) by (nonlinear_arith)
        requires
            magnitude(whole) == w * parts,
    ;
    assert(p * parts > 0) by (nonlinear_arith)
        requires
            p > 0,
            parts > 0,
    ;
    lemma_whole_fraction(n, magnitude(whole) * p, p * parts);
}

/// A whole number is written with its digits, a point and as many zeros as
/// there are decimals; without decimals with its digits alone.
pub proof fn law_whole_numbers_are_written_with_zeros(n: nat, decimals: nat)
    requires
        n <= TWO_53,
    ensures
        decimals == 0 ==> fixed(of_int(n as int), decimals) == number::nat_text(n),
        decimals > 0 ==> fixed(of_int(n as int), decimals) == number::nat_text(n) + seq!['.']
            + number::padded_text(0, decimals),
        n > 0 ==> fixed(of_int(-n), decimals) == seq!['-'] + fixed(of_int(n as int), decimals),
{
    lemma_whole(n as int);
    lemma_whole(-(n as int));
    float64::lemma_tens_next(decimals);
    power2::lemma_pow2_pos(float64::smallest());
    let p = one();
    let t = float64::tens(decimals);
    let x = of_int(n as int)->value;
    let q = n * t;
    assert(x.scaled() * t == q * p) by (nonlinear_arith)
        requires
            x.scaled() == n * p,
            q == n * t,
    ;
    float64::lemma_half_even_exact(q, p);
    if decimals == 0 {
        assert(t == 1);
        assert(q == n * 1);
    }
    assert(q / t == n && q % t == 0) by {
        div_mod::lemma_fundamental_div_mod_converse(q as int, t as int, n as int, 0);
    }
}

/// Doubles are ordered: none is below itself, and of two of which one is below
/// the other the other is not. What is no number is compared with nothing.
pub proof fn law_order_is_strict(a: Double, b: Double)
    ensures
        !below(a, a),
        below(a, b) ==> !below(b, a),
        a is Nan || b is Nan ==> !below(a, b) && !at_most(a, b),
        below(a, b) ==> at_most(a, b),
        !(a is Nan) && !(b is Nan) ==> below(a, b) || at_most(b, a),
        sum_of(a, b) == sum_of(b, a),
        !(larger_of(a, b) is Nan) && !(a is Nan) ==> !below(larger_of(a, b), a),
        !(smaller_of(a, b) is Nan) && !(a is Nan) ==> !below(a, smaller_of(a, b)),
        !below(at_least_zero(a), zero(false)) && !(at_least_zero(a) is Nan),
{
}

} // verus!
