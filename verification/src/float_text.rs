//! Decimal text as double precision numbers.
//!
//! The accepted texts are those of the usual floating point grammar: an
//! optional sign, then `inf`, `infinity`, `nan` in any case, or digits with an
//! optional point and an optional exponent.

use vstd::prelude::*;
use vstd::arithmetic::power2;
use crate::float64;
use crate::float64::{Double, Float64};
use crate::number;
use crate::text;

verus! {

/// What a floating point text writes.
pub enum FloatForm {
    Nan,
    Infinite { negative: bool },
    /// `digits * 10^exponent`.
    Number { negative: bool, digits: Seq<char>, exponent: int },
}

/// The first position that holds one of two characters, or the length.
pub open spec fn first_of(s: Seq<char>, a: char, b: char) -> int
    decreases s.len(),
{
    if s.len() == 0 || s[0] == a || s[0] == b {
        0
    } else {
        1 + first_of(s.skip(1), a, b)
    }
}

/// The mantissa of a number: what stands in front of the exponent mark.
pub open spec fn mantissa_part(body: Seq<char>) -> Seq<char> {
    body.take(first_of(body, 'e', 'E'))
}

/// The digits of a mantissa behind the point.
pub open spec fn decimals_of(mantissa: Seq<char>) -> Seq<char> {
    let point = first_of(mantissa, '.', '.');
    if point < mantissa.len() {
        mantissa.skip(point + 1)
    } else {
        Seq::empty()
    }
}

/// The digits of a mantissa, without the point.
pub open spec fn digits_of(mantissa: Seq<char>) -> Seq<char> {
    mantissa.take(first_of(mantissa, '.', '.')) + decimals_of(mantissa)
}

/// The digits of a number behind the point.
pub open spec fn decimals_part(body: Seq<char>) -> Seq<char> {
    decimals_of(mantissa_part(body))
}

/// The digits of a number, without the point.
pub open spec fn digits_part(body: Seq<char>) -> Seq<char> {
    digits_of(mantissa_part(body))
}

/// The exponent that a number writes, zero where it writes none.
pub open spec fn exponent_part(body: Seq<char>) -> Option<int> {
    let mark = first_of(body, 'e', 'E');
    if mark < body.len() {
        number::int_of_text(body.skip(mark + 1))
    } else {
        Some(0)
    }
}

/// What a text without its sign writes.
pub open spec fn unsigned_form(body: Seq<char>, negative: bool) -> Option<FloatForm> {
    let lower = text::ascii_lowered(body);
    if lower == "inf"@ || lower == "infinity"@ {
        Some(FloatForm::Infinite { negative })
    } else if lower == "nan"@ {
        Some(FloatForm::Nan)
    } else if digits_part(body).len() == 0 || !number::all_digits(digits_part(body))
        || exponent_part(body) is None {
        None
    } else {
        Some(
            FloatForm::Number {
                negative,
                digits: digits_part(body),
                exponent: exponent_part(body)->0 - decimals_part(body).len(),
            },
        )
    }
}

/// What a text writes, if it is a floating point text.
pub open spec fn float_form(s: Seq<char>) -> Option<FloatForm> {
    if s.len() > 0 && (s[0] == '+' || s[0] == '-') {
        unsigned_form(s.skip(1), s[0] == '-')
    } else {
        unsigned_form(s, false)
    }
}

/// The numerator of `digits * 10^exponent`.
pub open spec fn numerator(digits: Seq<char>, exponent: int) -> nat {
    if exponent > 0 {
        number::digits_value(digits) * float64::tens(exponent as nat)
    } else {
        number::digits_value(digits)
    }
}

/// The denominator of `digits * 10^exponent`.
pub open spec fn denominator(exponent: int) -> nat {
    if exponent > 0 {
        1
    } else {
        float64::tens((-exponent) as nat)
    }
}

/// The double that a form stands for: the nearest one, and infinity where the
/// number is too large.
pub open spec fn is_value_of(r: Double, form: FloatForm) -> bool {
    match form {
        FloatForm::Nan => r == Double::Nan,
        FloatForm::Infinite { negative } => r == (Double::Infinite { negative }),
        FloatForm::Number { negative, digits, exponent } => {
            let rounded = float64::nearest(numerator(digits, exponent), denominator(exponent));
            match r {
                Double::Nan => false,
                Double::Infinite { negative: sign } => sign == negative && rounded.1
                    > float64::MAX_UNIT,
                Double::Finite { negative: sign, value } => sign == negative && value.wf()
                    && value.mantissa == rounded.0 && value.unit == rounded.1,
            }
        },
    }
}

/// The first position from `from` on that holds one of two characters, or the
/// end.
fn find_of(chars: &Vec<char>, from: usize, to: usize, a: char, b: char) -> (r: usize)
    requires
        from <= to <= chars@.len(),
    ensures
        from <= r <= to,
        r - from == first_of(chars@.subrange(from as int, to as int), a, b),
{
    let mut i: usize = from;
    let ghost s = chars@.subrange(from as int, to as int);
    assert(s.skip(0) =~= s);
    while i < to && chars[i] != a && chars[i] != b
        invariant
            from <= i <= to <= chars@.len(),
            s == chars@.subrange(from as int, to as int),
            first_of(s, a, b) == (i - from) + first_of(s.skip(i - from), a, b),
        decreases to - i,
    {
        proof {
            assert(s.skip(i - from)[0] == chars@[i as int]);
            assert(s.skip(i - from).skip(1) =~= s.skip(i - from + 1));
        }
        i = i + 1;
    }
    proof {
        if i < to {
            assert(s.skip(i - from)[0] == chars@[i as int]);
        }
    }
    i
}

/// The bound at which a written exponent is held.
const EXPONENT_CAP: i128 = 1_000_000_000_000_000_000_000_000_000_000;

/// Whether `v` is the integer `x`, held at the bound on either side.
spec fn is_capped(v: int, x: int) -> bool {
    ||| v == x
    ||| v == EXPONENT_CAP && x > EXPONENT_CAP
    ||| v == -EXPONENT_CAP && x < -EXPONENT_CAP
}

/// The exponent that the characters from `from` on write.
#[verifier::loop_isolation(false)]
fn parse_exponent(chars: &Vec<char>, from: usize) -> (r: Option<i128>)
    requires
        from <= chars@.len(),
    ensures
        match number::int_of_text(chars@.skip(from as int)) {
            Some(x) => r is Some && is_capped(r->0 as int, x),
            None => r is None,
        },
        r is Some ==> -EXPONENT_CAP <= r->0 <= EXPONENT_CAP,
{
    let ghost s = chars@.skip(from as int);
    let signed: bool = from < chars.len() && (chars[from] == '+' || chars[from] == '-');
    let negative: bool = signed && chars[from] == '-';
    let start: usize = if signed {
        from + 1
    } else {
        from
    };
    let ghost digits = chars@.skip(start as int);
    proof {
        if from < chars@.len() {
            assert(s[0] == chars@[from as int]);
        }
        assert(signed ==> s.skip(1) =~= digits);
    }
    if start == chars.len() {
        return None;
    }
    let mut value: i128 = 0;
    let mut i: usize = start;
    while i < chars.len()
        invariant
            start <= i <= chars@.len(),
            digits == chars@.skip(start as int),
            forall|j: int| 0 <= j < i - start ==> number::is_digit(#[trigger] digits[j]),
            0 <= value <= EXPONENT_CAP,
            is_capped(value as int, number::digits_value(digits.take(i - start)) as int),
        decreases chars@.len() - i,
    {
        if !number::ascii_digit(chars[i]) {
            assert(!number::is_digit(digits[i - start]));
            return None;
        }
        proof {
            assert(digits.take(i - start + 1).drop_last() =~= digits.take(i - start));
            assert(digits.take(i - start + 1).last() == chars@[i as int]);
        }
        let d: u32 = (chars[i] as u32) - 48;
        value = value * 10 + d as i128;
        if value > EXPONENT_CAP {
            value = EXPONENT_CAP;
        }
        i = i + 1;
    }
    proof {
        assert(digits.take(i - start) =~= digits);
    }
    if negative {
        Some(-value)
    } else {
        Some(value)
    }
}

/// The first digit counts in its place, the rest after it.
proof fn lemma_digits_head(s: Seq<char>)
    requires
        s.len() > 0,
    ensures
        number::digits_value(s) == number::digit_value(s[0]) * float64::tens((s.len() - 1) as nat)
            + number::digits_value(s.skip(1)),
    decreases s.len(),
{
    float64::lemma_tens_next(0);
    if s.len() == 1 {
        assert(s.drop_last() =~= Seq::<char>::empty());
        assert(s.skip(1) =~= Seq::<char>::empty());
        assert(number::digits_value(s.drop_last()) == 0);
        assert(number::digits_value(s.skip(1)) == 0);
        assert(number::digit_value(s[0]) * 1 == number::digit_value(s[0]));
    } else {
        let t = s.drop_last();
        lemma_digits_head(t);
        assert(t.skip(1) =~= s.skip(1).drop_last());
        assert(s.skip(1).last() == s.last());
        float64::lemma_tens_next((s.len() - 2) as nat);
        let d = number::digit_value(s[0]);
        let p = float64::tens((s.len() - 2) as nat);
        let r = number::digits_value(t.skip(1));
        assert((d * p + r) * 10 == d * (10 * p) + r * 10) by (nonlinear_arith);
    }
}

/// Digits write less than the power of ten of their number.
proof fn lemma_digits_bound(s: Seq<char>)
    requires
        number::all_digits(s),
    ensures
        number::digits_value(s) < float64::tens(s.len()),
    decreases s.len(),
{
    float64::lemma_tens_next(0);
    if s.len() > 0 {
        let t = s.drop_last();
        assert forall|i: int| 0 <= i < t.len() implies number::is_digit(#[trigger] t[i]) by {
            assert(t[i] == s[i]);
        }
        lemma_digits_bound(t);
        float64::lemma_tens_next(t.len());
        assert(number::is_digit(s[s.len() - 1]));
    }
}

/// A power of ten is at least the power of two of three times its exponent.
proof fn lemma_tens_exceed(n: nat)
    ensures
        float64::tens(n) >= power2::pow2(3 * n),
    decreases n,
{
    float64::lemma_tens_next(0);
    float64::lemma_bounds();
    if n > 0 {
        lemma_tens_exceed((n - 1) as nat);
        float64::lemma_tens_next((n - 1) as nat);
        power2::lemma_pow2_adds(3 * (n - 1) as nat, 3);
        power2::lemma2_to64();
    }
}

/// A number of more than four hundred places is infinite.
proof fn lemma_huge(digits: Seq<char>, n: nat, exponent: int)
    requires
        number::digits_value(digits) >= float64::tens(n),
        n + exponent >= 400,
    ensures
        float64::nearest(numerator(digits, exponent), denominator(exponent)).1
            > float64::MAX_UNIT,
{
    let v = number::digits_value(digits);
    let num = numerator(digits, exponent);
    let den = denominator(exponent);
    let h = float64::tens(400);
    float64::lemma_tens_next(400);
    assert(num >= h * den && den >= 1) by {
        if exponent > 0 {
            float64::lemma_tens_add(n, exponent as nat);
            float64::lemma_tens_monotone(400, n + exponent as nat);
            float64::lemma_tens_next(exponent as nat);
            let x = float64::tens(n);
            let y = float64::tens(exponent as nat);
            assert(v * y >= x * y) by (nonlinear_arith)
                requires
                    v >= x,
            ;
            assert(h * 1 == h);
        } else {
            let e = (-exponent) as nat;
            float64::lemma_tens_add(e, 400);
            float64::lemma_tens_monotone(e + 400, n);
            float64::lemma_tens_next(e);
            assert(float64::tens(e) * h == h * float64::tens(e)) by (nonlinear_arith);
        }
    }
    lemma_tens_exceed(400);
    power2::lemma_pow2_adds(1200, 1074);
    power2::lemma_pow2_adds(2046, 53);
    float64::lemma_pow2_monotone(2099, 2274);
    float64::lemma_pow2_next(1074);
    let z = power2::pow2(1074);
    let w = power2::pow2(1200);
    assert(num * z >= den * (w * z)) by (nonlinear_arith)
        requires
            num >= h * den,
            h >= w,
    ;
    let a = power2::pow2(2046);
    let b = power2::pow2(53);
    assert(den * (w * z) >= den * a * b) by (nonlinear_arith)
        requires
            w * z >= a * b,
    ;
    float64::lemma_unit_above(num, den, 2046);
}

/// A number below the four hundredth decimal place is zero.
proof fn lemma_tiny(digits: Seq<char>, n: nat, exponent: int)
    requires
        number::digits_value(digits) < float64::tens(n),
        n + exponent <= -400,
    ensures
        float64::nearest(numerator(digits, exponent), denominator(exponent)) == (0nat, 0nat),
{
    let num = numerator(digits, exponent);
    let den = denominator(exponent);
    let e = (-exponent) as nat;
    float64::lemma_tens_add(n, 400);
    float64::lemma_tens_monotone(n + 400, e);
    float64::lemma_tens_next(n);
    lemma_tens_exceed(400);
    power2::lemma_pow2_adds(1074, 126);
    float64::lemma_bounds();
    float64::lemma_pow2_next(0);
    float64::lemma_pow2_monotone(1, 126);
    float64::lemma_pow2_next(1074);
    let z = power2::pow2(1074);
    let h = float64::tens(400);
    let x = float64::tens(n);
    assert(h >= 2 * z) by (nonlinear_arith)
        requires
            h >= z * power2::pow2(126),
            power2::pow2(126) >= 2,
    ;
    assert(2 * (num * z) < den) by (nonlinear_arith)
        requires
            num < x,
            den >= x * h,
            h >= 2 * z,
            z >= 1,
    ;
    let a = num * z;
    assert(den * 1 == den);
    assert(den * power2::pow2(0) * power2::pow2(53) == den * float64::TWO_53);
    assert(float64::unit_fits(num, den, 0));
    float64::lemma_unit_is(num, den, 0);
    vstd::arithmetic::div_mod::lemma_basic_div(a as int, den as int);
    vstd::arithmetic::div_mod::lemma_small_mod(a, den);
}

/// The double nearest to a decimal number; infinite where `None`.
fn decimal_double(digits: &Vec<char>, exponent: i128) -> (r: Option<Float64>)
    requires
        digits@.len() > 0,
        number::all_digits(digits@),
        -2 * EXPONENT_CAP <= exponent <= 2 * EXPONENT_CAP,
    ensures
        float64::is_nearest(r, numerator(digits@, exponent as int), denominator(exponent as int)),
{
    let mut first: usize = 0;
    assert(digits@.skip(0) =~= digits@);
    while first < digits.len() && digits[first] == '0'
        invariant
            first <= digits@.len(),
            number::digits_value(digits@) == number::digits_value(digits@.skip(first as int)),
        decreases digits@.len() - first,
    {
        proof {
            let t = digits@.skip(first as int);
            lemma_digits_head(t);
            assert(t.skip(1) =~= digits@.skip(first + 1));
            assert(t[0] == '0');
            assert(0 * float64::tens((t.len() - 1) as nat) == 0);
        }
        first = first + 1;
    }
    let ghost v = number::digits_value(digits@);
    let ghost num = numerator(digits@, exponent as int);
    let ghost den = denominator(exponent as int);
    if first == digits.len() {
        proof {
            assert(digits@.skip(first as int) =~= Seq::<char>::empty());
            assert(v == 0);
            assert(num == 0) by {
                if exponent > 0 {
                    assert(0 * float64::tens(exponent as nat) == 0);
                }
            }
            assert(den > 0) by {
                if exponent <= 0 {
                    float64::lemma_tens_next((-exponent) as nat);
                }
            }
            float64::lemma_bounds();
            assert(0 * power2::pow2(1074) == 0 * (den * power2::pow2(0)));
            float64::lemma_nearest_exact(0, den, 0, 0);
        }
        return Some(Float64 { mantissa: 0, unit: 0 });
    }
    let places: usize = digits.len() - first;
    proof {
        let t = digits@.skip(first as int);
        lemma_digits_head(t);
        assert(t[0] == digits@[first as int]);
        assert(number::is_digit(digits@[first as int]));
        let d = number::digit_value(t[0]);
        let p = float64::tens((places - 1) as nat);
        assert(d * p >= p) by (nonlinear_arith)
            requires
                d >= 1,
        ;
        assert forall|i: int| 0 <= i < t.len() implies number::is_digit(#[trigger] t[i]) by {
            assert(t[i] == digits@[first + i]);
        }
        lemma_digits_bound(t);
    }
    let magnitude: i128 = places as i128 + exponent;
    if magnitude > 400 {
        proof {
            lemma_huge(digits@, (places - 1) as nat, exponent as int);
        }
        return None;
    }
    if magnitude < -400 {
        proof {
            lemma_tiny(digits@, places as nat, exponent as int);
        }
        return Some(Float64 { mantissa: 0, unit: 0 });
    }
    let zeros: usize = if exponent > 0 {
        exponent as usize
    } else {
        0
    };
    let mut out: Vec<u8> = Vec::new();
    while out.len() < zeros
        invariant
            out@.len() <= zeros,
            float64::are_digits(out@),
            float64::low_first_value(out@) == 0,
        decreases zeros - out@.len(),
    {
        proof {
            float64::lemma_low_first_push(out@, 0);
            assert(0 * float64::tens(out@.len()) == 0);
        }
        out.push(0);
    }
    let mut i: usize = digits.len();
    proof {
        assert(digits@.skip(i as int) =~= Seq::<char>::empty());
        assert(float64::tens(zeros as nat) * 0 == 0);
    }
    while i > 0
        invariant
            i <= digits@.len(),
            number::all_digits(digits@),
            float64::are_digits(out@),
            out@.len() == zeros + (digits@.len() - i),
            float64::low_first_value(out@) == float64::tens(zeros as nat) * number::digits_value(
                digits@.skip(i as int),
            ),
        decreases i,
    {
        i = i - 1;
        let c: char = digits[i];
        proof {
            assert(number::is_digit(digits@[i as int]));
        }
        let d: u8 = (c as u8) - 48;
        let ghost before = out@;
        proof {
            let t = digits@.skip(i as int);
            lemma_digits_head(t);
            assert(t.skip(1) =~= digits@.skip(i + 1));
            float64::lemma_low_first_push(before, d);
            float64::lemma_tens_add(zeros as nat, (t.len() - 1) as nat);
            let x = float64::tens(zeros as nat);
            let y = float64::tens((t.len() - 1) as nat);
            let w = number::digits_value(t.skip(1));
            assert(x * w + d as nat * (x * y) == x * (d as nat * y + w)) by (nonlinear_arith);
            assert(d as nat == number::digit_value(t[0]));
        }
        out.push(d);
        proof {
            assert forall|j: int| 0 <= j < out@.len() implies (#[trigger] out@[j]) < 10 by {
                if j < before.len() {
                    assert(out@[j] == before[j]);
                }
            }
        }
    }
    assert(digits@.skip(0) =~= digits@);
    let point: u128 = if exponent < 0 {
        (-exponent) as u128
    } else {
        0
    };
    let ghost total = float64::low_first_value(out@);
    proof {
        float64::lemma_tens_next(0);
        assert(v * float64::tens(zeros as nat) == float64::tens(zeros as nat) * v)
            by (nonlinear_arith);
        assert(1 * v == v);
        assert(total == num);
        assert(float64::tens(point as nat) == den);
    }
    float64::nearest_decimal(out, point)
}

/// A number with an exponent beyond the bound rounds as one at the bound does.
proof fn lemma_capped(digits: Seq<char>, decimals: int, x: int, v: int)
    requires
        number::all_digits(digits),
        0 <= decimals <= digits.len() < 0x1_0000_0000_0000_0000,
        is_capped(v, x),
    ensures
        float64::nearest(numerator(digits, v - decimals), denominator(v - decimals))
            == float64::nearest(numerator(digits, x - decimals), denominator(x - decimals)) || (
        float64::nearest(numerator(digits, v - decimals), denominator(v - decimals)).1
            > float64::MAX_UNIT && float64::nearest(
            numerator(digits, x - decimals),
            denominator(x - decimals),
        ).1 > float64::MAX_UNIT),
{
    let a = v - decimals;
    let b = x - decimals;
    let value = number::digits_value(digits);
    float64::lemma_tens_next(0);
    if v != x {
        if v < 0 {
            lemma_digits_bound(digits);
            lemma_tiny(digits, digits.len(), a);
            lemma_tiny(digits, digits.len(), b);
        } else if value == 0 {
            assert(0 * float64::tens(a as nat) == 0);
            assert(0 * float64::tens(b as nat) == 0);
        } else {
            lemma_huge(digits, 0, a);
            lemma_huge(digits, 0, b);
        }
    }
}

/// The digits of the mantissa between two positions, and how many of them
/// stand behind the point.
fn split_mantissa(chars: &Vec<char>, start: usize, mark: usize) -> (r: (Vec<char>, usize))
    requires
        start <= mark <= chars@.len(),
    ensures
        r.0@ == digits_of(chars@.subrange(start as int, mark as int)),
        r.1 == decimals_of(chars@.subrange(start as int, mark as int)).len(),
{
    let ghost mantissa = chars@.subrange(start as int, mark as int);
    let point: usize = find_of(chars, start, mark, '.', '.');
    let mut digits: Vec<char> = Vec::new();
    let mut i: usize = start;
    while i < point
        invariant
            start <= i <= point <= chars@.len(),
            digits@ == chars@.subrange(start as int, i as int),
        decreases point - i,
    {
        digits.push(chars[i]);
        i = i + 1;
        assert(digits@ =~= chars@.subrange(start as int, i as int));
    }
    let ghost whole = digits@;
    let after: usize = if point < mark {
        point + 1
    } else {
        mark
    };
    let mut j: usize = after;
    while j < mark
        invariant
            after <= j <= mark <= chars@.len(),
            digits@ == whole + chars@.subrange(after as int, j as int),
        decreases mark - j,
    {
        digits.push(chars[j]);
        j = j + 1;
        assert(digits@ =~= whole + chars@.subrange(after as int, j as int));
    }
    proof {
        assert(whole =~= mantissa.take(point - start));
        assert(chars@.subrange(after as int, mark as int) =~= decimals_of(mantissa));
    }
    (digits, mark - after)
}

/// Whether every character is a digit.
pub fn only_digits(chars: &Vec<char>) -> (r: bool)
    ensures
        r == number::all_digits(chars@),
{
    let mut k: usize = 0;
    while k < chars.len()
        invariant
            k <= chars@.len(),
            forall|l: int| 0 <= l < k ==> number::is_digit(#[trigger] chars@[l]),
        decreases chars@.len() - k,
    {
        if !number::ascii_digit(chars[k]) {
            assert(!number::is_digit(chars@[k as int]));
            return false;
        }
        k = k + 1;
    }
    true
}

/// The double of the digits from `start` on.
fn parse_number(chars: &Vec<char>, start: usize, negative: bool) -> (r: Option<Double>)
    requires
        start <= chars@.len(),
    ensures
        ({
            let body = chars@.skip(start as int);
            let digits = digits_part(body);
            let decimals = decimals_part(body).len();
            if digits.len() == 0 || !number::all_digits(digits) || exponent_part(body) is None {
                r is None
            } else {
                r is Some && is_value_of(
                    r->0,
                    FloatForm::Number {
                        negative,
                        digits,
                        exponent: exponent_part(body)->0 - decimals,
                    },
                )
            }
        }),
{
    let n: usize = chars.len();
    let ghost body = chars@.skip(start as int);
    assert(chars@.subrange(start as int, n as int) =~= body);
    let mark: usize = find_of(chars, start, n, 'e', 'E');
    assert(chars@.subrange(start as int, mark as int) =~= mantissa_part(body));
    let (digits, decimals): (Vec<char>, usize) = split_mantissa(chars, start, mark);
    let total: usize = digits.len();
    if total == 0 || !only_digits(&digits) {
        return None;
    }
    let exponent: Option<i128> = if mark < n {
        assert(body.skip(mark - start + 1) =~= chars@.skip(mark + 1));
        parse_exponent(chars, mark + 1)
    } else {
        Some(0)
    };
    match exponent {
        None => None,
        Some(v) => {
            proof {
                lemma_capped(digits@, decimals as int, exponent_part(body)->0, v as int);
            }
            match decimal_double(&digits, v - decimals as i128) {
                Some(value) => Some(Double::Finite { negative, value }),
                None => Some(Double::Infinite { negative }),
            }
        },
    }
}

/// The double that a text writes, if it is a floating point text.
pub fn parse_float(s: &str) -> (r: Option<Double>)
    ensures
        match float_form(s@) {
            Some(form) => r is Some && is_value_of(r->0, form),
            None => r is None,
        },
{
    let chars: Vec<char> = text::to_chars(s);
    let n: usize = chars.len();
    let signed: bool = n > 0 && (chars[0] == '+' || chars[0] == '-');
    let negative: bool = signed && chars[0] == '-';
    let start: usize = if signed {
        1
    } else {
        0
    };
    let ghost body = s@.skip(start as int);
    proof {
        assert(s@.skip(0) =~= s@);
        assert(chars@.subrange(start as int, n as int) =~= body);
    }
    let raw: String = text::slice_chars(&chars, start, n);
    let lower: String = text::to_ascii_lower(raw.as_str());
    if text::same(lower.as_str(), "inf") || text::same(lower.as_str(), "infinity") {
        Some(Double::Infinite { negative })
    } else if text::same(lower.as_str(), "nan") {
        Some(Double::Nan)
    } else {
        parse_number(&chars, start, negative)
    }
}

proof fn lemma_first_behind(s: Seq<char>, rest: Seq<char>, a: char, b: char)
    requires
        forall|i: int| 0 <= i < s.len() ==> (#[trigger] s[i]) != a && s[i] != b,
        rest.len() == 0 || rest[0] == a || rest[0] == b,
    ensures
        first_of(s + rest, a, b) == s.len(),
    decreases s.len(),
{
    if s.len() == 0 {
        assert(s + rest =~= rest);
    } else {
        assert((s + rest)[0] == s[0]);
        assert((s + rest).skip(1) =~= s.skip(1) + rest);
        lemma_first_behind(s.skip(1), rest, a, b);
    }
}

/// A whole number of tens, written with its exponent, is what the text writes.
pub proof fn lemma_written_form(n: nat, exponent: int, negative: bool)
    ensures
        ({
            let body = number::nat_text(n) + seq!['e'] + number::int_text(exponent);
            let form = Some(
                FloatForm::Number { negative, digits: number::nat_text(n), exponent },
            );
            &&& unsigned_form(body, negative) == form
            &&& !negative ==> float_form(body) == form
            &&& negative ==> float_form(seq!['-'] + body) == form
        }),
{
    let digits = number::nat_text(n);
    let tail = number::int_text(exponent);
    let rest = seq!['e'] + tail;
    let body = digits + seq!['e'] + tail;
    assert(body =~= digits + rest);
    number::lemma_nat_text(n);
    number::lemma_int_text_round_trip(exponent);
    assert forall|i: int| 0 <= i < digits.len() implies (#[trigger] digits[i]) != 'e' && digits[i]
        != 'E' && digits[i] != '.' by {
        assert(number::is_digit(digits[i]));
    }
    assert(rest[0] == 'e');
    lemma_first_behind(digits, rest, 'e', 'E');
    lemma_first_behind(digits, Seq::empty(), '.', '.');
    assert(digits + Seq::<char>::empty() =~= digits);
    assert(body.take(digits.len() as int) =~= digits);
    assert(body.skip(digits.len() as int + 1) =~= tail);
    assert(digits.take(digits.len() as int) =~= digits);
    assert(digits_part(body) =~= digits);
    assert(number::is_digit(digits[0]));
    assert(body[0] == digits[0]);
    reveal_strlit("inf");
    reveal_strlit("infinity");
    reveal_strlit("nan");
    let lower = text::ascii_lowered(body);
    assert(lower[0] == body[0]);
    assert("inf"@[0] == 'i' && "infinity"@[0] == 'i' && "nan"@[0] == 'n');
    let signed = seq!['-'] + body;
    assert(signed[0] == '-' && signed.skip(1) =~= body);
}

} // verus!
