//! Token amounts as people write them: `1024`, `64K`, `1.5M`, `2B`.

use vstd::prelude::*;
use vstd::arithmetic::power2;
use crate::float64;
use crate::float64::{Double, Float64};
use crate::float_text;
use crate::number;
use crate::text;

verus! {

/// The factor that the last character of an amount stands for.
pub open spec fn unit_factor(c: char) -> nat {
    if c == 'k' || c == 'K' {
        1_000
    } else if c == 'm' || c == 'M' {
        1_000_000
    } else if c == 'b' || c == 'B' {
        1_000_000_000
    } else {
        1
    }
}

/// The text of an amount without its unit.
pub open spec fn without_unit(value: Seq<char>) -> Seq<char> {
    if unit_factor(value.last()) > 1 {
        value.drop_last()
    } else {
        value
    }
}

/// A double times a factor, in double precision, rounded to the nearest
/// integer and held at the largest 64-bit one.
pub open spec fn scaled_amount(mantissa: nat, unit: nat, factor: nat) -> int {
    let product = float64::nearest(
        mantissa * power2::pow2(unit) * factor,
        power2::pow2(float64::smallest()),
    );
    let rounded = float64::half_up(
        product.0 * power2::pow2(product.1),
        power2::pow2(float64::smallest()),
    );
    if product.1 > float64::MAX_UNIT || rounded > i64::MAX {
        i64::MAX as int
    } else {
        rounded as int
    }
}

/// The amount that a number with a factor stands for.
pub open spec fn amount_of_form(
    form: Option<float_text::FloatForm>,
    factor: nat,
) -> Result<int, Seq<char>> {
    match form {
        None => Err("请输入数字, 例如 1024, 64K, 1.5M, 2B"@),
        Some(float_text::FloatForm::Number { negative, digits, exponent }) => {
            let value = float64::nearest(
                float_text::numerator(digits, exponent),
                float_text::denominator(exponent),
            );
            if value.1 > float64::MAX_UNIT || (negative && value.0 > 0) {
                Err("必须是非负数字"@)
            } else {
                Ok(scaled_amount(value.0, value.1, factor))
            }
        },
        Some(_) => Err("必须是非负数字"@),
    }
}

/// What an input stands for: white space around it and underscores in it do
/// not count.
pub open spec fn amount_of(input: Seq<char>) -> Result<int, Seq<char>> {
    let value = text::without_char(text::trimmed(input), '_');
    if value.len() == 0 {
        Err("不能为空"@)
    } else {
        amount_of_form(
            float_text::float_form(text::trimmed(without_unit(value))),
            unit_factor(value.last()),
        )
    }
}

/// Whether an outcome is the given amount or message.
pub open spec fn is_outcome(r: Result<i64, String>, expected: Result<int, Seq<char>>) -> bool {
    match (r, expected) {
        (Ok(v), Ok(x)) => v == x,
        (Err(e), Err(m)) => e@ == m,
        _ => false,
    }
}

/// The factor that the last character of an amount stands for.
fn factor_of(c: char) -> (r: u64)
    ensures
        r == unit_factor(c),
        1 <= r <= 1_000_000_000,
{
    if c == 'k' || c == 'K' {
        1_000
    } else if c == 'm' || c == 'M' {
        1_000_000
    } else if c == 'b' || c == 'B' {
        1_000_000_000
    } else {
        1
    }
}

/// A finite double times a factor, as an amount.
fn amount(value: Float64, factor: u64) -> (r: i64)
    requires
        value.wf(),
        1 <= factor <= 1_000_000_000,
    ensures
        r == scaled_amount(value.mantissa as nat, value.unit as nat, factor as nat),
{
    match float64::nearest_product(value, factor) {
        None => i64::MAX,
        Some(product) => float64::rounded_i64(product),
    }
}

/// The number of tokens that an input stands for, or a message.
pub fn parse_token_amount(input: &str) -> (r: Result<i64, String>)
    ensures
        is_outcome(r, amount_of(input@)),
{
    let trimmed: String = text::trim(input);
    let value: String = text::remove_char(trimmed.as_str(), '_');
    let chars: Vec<char> = text::to_chars(value.as_str());
    if chars.len() == 0 {
        return Err(String::from_str("不能为空"));
    }
    let last: usize = chars.len() - 1;
    let factor: u64 = factor_of(chars[last]);
    let end: usize = if factor > 1 {
        last
    } else {
        chars.len()
    };
    proof {
        assert(value@.subrange(0, end as int) =~= without_unit(value@));
    }
    let bare: String = text::slice_chars(&chars, 0, end);
    let number_text: String = text::trim(bare.as_str());
    match float_text::parse_float(number_text.as_str()) {
        None => Err(String::from_str("请输入数字, 例如 1024, 64K, 1.5M, 2B")),
        Some(Double::Finite { negative, value }) => {
            if negative && value.mantissa > 0 {
                Err(String::from_str("必须是非负数字"))
            } else {
                Ok(amount(value, factor))
            }
        },
        Some(_) => Err(String::from_str("必须是非负数字")),
    }
}

/// What an optional input stands for: nothing where it is blank, otherwise an
/// amount, or the label with a message.
pub open spec fn optional_amount_of(label: Seq<char>, value: Seq<char>) -> Result<
    Option<int>,
    Seq<char>,
> {
    if text::trimmed(value).len() == 0 {
        Ok(None)
    } else {
        match amount_of(text::trimmed(value)) {
            Ok(x) => Ok(Some(x)),
            Err(m) => Err(label + " "@ + m),
        }
    }
}

/// Whether an outcome is the given optional amount or message.
pub open spec fn is_optional_outcome(
    r: Result<Option<i64>, String>,
    expected: Result<Option<int>, Seq<char>>,
) -> bool {
    match (r, expected) {
        (Ok(None), Ok(None)) => true,
        (Ok(Some(v)), Ok(Some(x))) => v == x,
        (Err(e), Err(m)) => e@ == m,
        _ => false,
    }
}

/// The number of tokens that an input stands for, or nothing for a blank one;
/// the label stands in front of a message.
pub fn parse_optional_token_amount(label: &str, value: &str) -> (r: Result<Option<i64>, String>)
    ensures
        is_optional_outcome(r, optional_amount_of(label@, value@)),
{
    let trimmed: String = text::trim(value);
    if text::is_empty(trimmed.as_str()) {
        return Ok(None);
    }
    match parse_token_amount(trimmed.as_str()) {
        Ok(v) => Ok(Some(v)),
        Err(message) => Err(text::concat3(label, " ", message.as_str())),
    }
}

/// An amount in the largest unit that divides it.
pub open spec fn token_input(value: int) -> Seq<char> {
    if value >= 1_000_000_000 && value % 1_000_000_000 == 0 {
        number::int_text(value / 1_000_000_000) + "B"@
    } else if value >= 1_000_000 && value % 1_000_000 == 0 {
        number::int_text(value / 1_000_000) + "M"@
    } else if value >= 1_000 && value % 1_000 == 0 {
        number::int_text(value / 1_000) + "K"@
    } else {
        number::int_text(value)
    }
}

/// The text of an amount for an input field.
pub fn format_token_input(value: i64) -> (r: String)
    ensures
        r@ == token_input(value as int),
{
    if value >= 1_000_000_000 && value % 1_000_000_000 == 0 {
        text::concat(number::i64_text(value / 1_000_000_000).as_str(), "B")
    } else if value >= 1_000_000 && value % 1_000_000 == 0 {
        text::concat(number::i64_text(value / 1_000_000).as_str(), "M")
    } else if value >= 1_000 && value % 1_000 == 0 {
        text::concat(number::i64_text(value / 1_000).as_str(), "K")
    } else {
        number::i64_text(value)
    }
}

/// An integer with a factor stands for their product, where doubles hold both.
proof fn lemma_integer_amount(n: nat, factor: nat)
    requires
        float64::as_double(n) == n,
        float64::as_double(n * factor) == n * factor,
        n * factor <= i64::MAX,
        factor >= 1,
    ensures
        amount_of_form(
            Some(
                float_text::FloatForm::Number {
                    negative: false,
                    digits: number::nat_text(n),
                    exponent: 0,
                },
            ),
            factor,
        ) == Ok::<int, Seq<char>>((n * factor) as int),
{
    assert(n <= n * factor) by (nonlinear_arith)
        requires
            factor >= 1,
    ;
    number::lemma_nat_text(n);
    float64::lemma_tens_next(0);
    float64::lemma_held_integer(n);
    let v = n * factor;
    float64::lemma_held_integer(v);
    let z = power2::pow2(1074);
    float64::lemma_pow2_next(1074);
    let a = float64::nearest(n, 1);
    let b = float64::nearest(v, 1);
    let num = a.0 * power2::pow2(a.1) * factor;
    assert(num == v * z) by (nonlinear_arith)
        requires
            num == (n * z) * factor,
            v == n * factor,
    ;
    let w = power2::pow2(b.1);
    assert(num * z == b.0 * (z * w)) by (nonlinear_arith)
        requires
            num == v * z,
            b.0 * w == v * z,
    ;
    float64::lemma_nearest_exact(num, z, b.0, b.1);
    float64::lemma_half_up_exact(v, z);
}

/// A text of digits is a number without exponent.
proof fn lemma_digits_form(s: Seq<char>)
    requires
        s.len() > 0,
        number::all_digits(s),
    ensures
        float_text::float_form(s) == Some(
            float_text::FloatForm::Number { negative: false, digits: s, exponent: 0 },
        ),
{
    reveal_strlit("inf");
    reveal_strlit("infinity");
    reveal_strlit("nan");
    assert(number::is_digit(s[0]));
    let lower = text::ascii_lowered(s);
    assert(lower[0] == s[0]);
    assert("inf"@[0] == 'i');
    assert("infinity"@[0] == 'i');
    assert("nan"@[0] == 'n');
    lemma_no_mark(s, 'e', 'E');
    assert(s.take(s.len() as int) =~= s);
    lemma_no_mark(s, '.', '.');
    assert(s + Seq::<char>::empty() =~= s);
}

/// Digits hold neither a point nor an exponent mark.
proof fn lemma_no_mark(s: Seq<char>, a: char, b: char)
    requires
        number::all_digits(s),
        !number::is_digit(a),
        !number::is_digit(b),
    ensures
        float_text::first_of(s, a, b) == s.len(),
    decreases s.len(),
{
    if s.len() > 0 {
        assert(number::is_digit(s[0]));
        let t = s.skip(1);
        assert forall|i: int| 0 <= i < t.len() implies number::is_digit(#[trigger] t[i]) by {
            assert(t[i] == s[i + 1]);
        }
        lemma_no_mark(t, a, b);
    }
}

/// A text whose ends are no white space is trimmed already.
pub proof fn lemma_trimmed_already(s: Seq<char>)
    requires
        s.len() > 0,
        !text::is_white_space(s[0]),
        !text::is_white_space(s.last()),
    ensures
        text::trimmed(s) == s,
{
}

/// A text without a character stays when that character is taken out.
proof fn lemma_without_absent(s: Seq<char>, c: char)
    requires
        forall|i: int| 0 <= i < s.len() ==> s[i] != c,
    ensures
        text::without_char(s, c) == s,
    decreases s.len(),
{
    if s.len() > 0 {
        lemma_without_absent(s.drop_last(), c);
        assert(s.drop_last().push(s.last()) =~= s);
    }
}

/// Digits and an optional unit stand for the number times the factor.
proof fn lemma_written_amount(n: nat, suffix: Seq<char>, factor: nat)
    requires
        suffix.len() <= 1,
        suffix.len() == 0 ==> factor == 1,
        suffix.len() == 1 ==> unit_factor(suffix[0]) == factor && factor > 1,
        float64::as_double(n) == n,
        float64::as_double(n * factor) == n * factor,
        n * factor <= i64::MAX,
    ensures
        amount_of(number::nat_text(n) + suffix) == Ok::<int, Seq<char>>((n * factor) as int),
{
    let digits = number::nat_text(n);
    let s = digits + suffix;
    number::lemma_nat_text(n);
    assert forall|i: int| 0 <= i < digits.len() implies number::is_digit(#[trigger] digits[i])
        && digits[i] != '_' && unit_factor(digits[i]) == 1 && !text::is_white_space(digits[i]) by {
        assert(number::is_digit(digits[i]));
    }
    assert(s[0] == digits[0]);
    if suffix.len() == 0 {
        assert(s =~= digits);
        assert(s.last() == digits[digits.len() - 1]);
    } else {
        assert(s.last() == suffix[0]);
        assert(s.drop_last() =~= digits);
    }
    lemma_trimmed_already(s);
    assert forall|i: int| 0 <= i < s.len() implies s[i] != '_' by {
        if i < digits.len() {
            assert(s[i] == digits[i]);
        } else {
            assert(s[i] == suffix[0]);
        }
    }
    lemma_without_absent(s, '_');
    assert(digits.last() == digits[digits.len() - 1]);
    lemma_trimmed_already(digits);
    lemma_digits_form(digits);
    lemma_integer_amount(n, factor);
}

/// Writing an amount for an input field and reading it again gives the
/// amount, for every amount that double precision holds exactly.
pub proof fn law_token_input_round_trip(value: int)
    requires
        0 <= value <= i64::MAX,
        float64::as_double(value as nat) == value,
    ensures
        amount_of(token_input(value)) == Ok::<int, Seq<char>>(value),
{
    reveal_strlit("B");
    reveal_strlit("M");
    reveal_strlit("K");
    if value >= 1_000_000_000 && value % 1_000_000_000 == 0 {
        let n = (value / 1_000_000_000) as nat;
        assert(n * 1_000_000_000 == value);
        float64::lemma_small_integer(n);
        lemma_written_amount(n, "B"@, 1_000_000_000);
    } else if value >= 1_000_000 && value % 1_000_000 == 0 {
        let n = (value / 1_000_000) as nat;
        assert(n * 1_000_000 == value);
        float64::lemma_small_integer(n);
        lemma_written_amount(n, "M"@, 1_000_000);
    } else if value >= 1_000 && value % 1_000 == 0 {
        let n = (value / 1_000) as nat;
        assert(n * 1_000 == value);
        float64::lemma_thousandth_is_held(n);
        lemma_written_amount(n, "K"@, 1_000);
    } else {
        assert(value * 1 == value);
        lemma_written_amount(value as nat, Seq::empty(), 1);
        assert(number::nat_text(value as nat) + Seq::<char>::empty() =~= number::nat_text(
            value as nat,
        ));
    }
}

/// A whole number stands for itself, and with `K`, `M` or `B` behind it for so
/// many thousands, millions or thousands of millions; the letters may be of
/// either case.
pub proof fn law_units_are_thousands(n: nat)
    requires
        n * 1_000_000_000 < 0x20_0000_0000_0000,
    ensures
        amount_of(number::nat_text(n)) == Ok::<int, Seq<char>>(n as int),
        amount_of(number::nat_text(n) + seq!['k']) == Ok::<int, Seq<char>>(1_000int * n),
        amount_of(number::nat_text(n) + seq!['K']) == Ok::<int, Seq<char>>(1_000int * n),
        amount_of(number::nat_text(n) + seq!['m']) == Ok::<int, Seq<char>>(1_000_000int * n),
        amount_of(number::nat_text(n) + seq!['M']) == Ok::<int, Seq<char>>(1_000_000int * n),
        amount_of(number::nat_text(n) + seq!['b']) == Ok::<int, Seq<char>>(1_000_000_000int * n),
        amount_of(number::nat_text(n) + seq!['B']) == Ok::<int, Seq<char>>(1_000_000_000int * n),
{
    float64::lemma_small_integer(n);
    float64::lemma_small_integer(n * 1_000);
    float64::lemma_small_integer(n * 1_000_000);
    float64::lemma_small_integer(n * 1_000_000_000);
    lemma_written_amount(n, Seq::empty(), 1);
    assert(number::nat_text(n) + Seq::<char>::empty() =~= number::nat_text(n));
    lemma_written_amount(n, seq!['k'], 1_000);
    lemma_written_amount(n, seq!['K'], 1_000);
    lemma_written_amount(n, seq!['m'], 1_000_000);
    lemma_written_amount(n, seq!['M'], 1_000_000);
    lemma_written_amount(n, seq!['b'], 1_000_000_000);
    lemma_written_amount(n, seq!['B'], 1_000_000_000);
}

/// A blank input gives no amount and is no error; any other gives the amount
/// that it stands for, or an error that starts with its label.
pub proof fn law_blank_amounts_are_left_out(label: Seq<char>, value: Seq<char>)
    ensures
        optional_amount_of(label, value) == Ok::<Option<int>, Seq<char>>(None)
            <==> text::trimmed(value).len() == 0,
        optional_amount_of(label, value) matches Ok(Some(n)) ==> amount_of(value) == Ok::<
            int,
            Seq<char>,
        >(n),
        amount_of(value) matches Ok(n) ==> optional_amount_of(label, value) == Ok::<
            Option<int>,
            Seq<char>,
        >(Some(n)),
        optional_amount_of(label, value) matches Err(m) ==> label.is_prefix_of(m),
{
    text::law_trim_is_settled(value);
    lemma_nothing_left(value);
}

/// A blank text has nothing left without underscores.
proof fn lemma_nothing_left(value: Seq<char>)
    ensures
        text::trimmed(value).len() == 0 ==> text::without_char(text::trimmed(value), '_').len()
            == 0,
{
}

/// An amount is never negative, and fits in 64 bits.
pub proof fn law_amounts_are_not_negative(input: Seq<char>)
    ensures
        amount_of(input) matches Ok(n) ==> 0 <= n <= i64::MAX,
{
}

} // verus!
