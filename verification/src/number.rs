//! Integers as decimal text, and decimal text as integers.

use vstd::prelude::*;
use crate::text::{from_chars, to_chars};

verus! {

/// Whether a character is an ASCII digit.
pub open spec fn is_digit(c: char) -> bool {
    '0' <= c <= '9'
}

/// The value of an ASCII digit.
pub open spec fn digit_value(c: char) -> nat {
    (c as int - '0' as int) as nat
}

/// The digit with the given value.
pub open spec fn digit_char(d: nat) -> char {
    ('0' as int + d) as char
}

/// Whether every character is an ASCII digit.
pub open spec fn all_digits(s: Seq<char>) -> bool {
    forall|i: int| 0 <= i < s.len() ==> is_digit(#[trigger] s[i])
}

/// The number that a sequence of digits writes in base ten.
pub open spec fn digits_value(s: Seq<char>) -> nat
    decreases s.len(),
{
    if s.len() == 0 {
        0
    } else {
        digits_value(s.drop_last()) * 10 + digit_value(s.last())
    }
}

/// A natural number in base ten, without leading zeros.
pub open spec fn nat_text(n: nat) -> Seq<char>
    decreases n,
{
    if n < 10 {
        seq![digit_char(n)]
    } else {
        nat_text(n / 10).push(digit_char(n % 10))
    }
}

/// An integer in base ten, with a minus sign where it is negative.
pub open spec fn int_text(n: int) -> Seq<char> {
    if n < 0 {
        seq!['-'] + nat_text((-n) as nat)
    } else {
        nat_text(n as nat)
    }
}

/// A natural number in base ten, padded with zeros on the left to a width.
pub open spec fn padded_text(n: nat, width: nat) -> Seq<char>
    decreases width,
{
    if width == 0 {
        if n == 0 {
            Seq::empty()
        } else {
            nat_text(n)
        }
    } else {
        padded_text(n / 10, (width - 1) as nat).push(digit_char(n % 10))
    }
}

/// The integer that a text writes in base ten: an optional sign, then digits
/// alone and at least one of them.
pub open spec fn int_of_text(s: Seq<char>) -> Option<int> {
    let signed = s.len() > 0 && (s[0] == '+' || s[0] == '-');
    let digits = if signed {
        s.skip(1)
    } else {
        s
    };
    if digits.len() == 0 || !all_digits(digits) {
        None
    } else if signed && s[0] == '-' {
        Some(-(digits_value(digits) as int))
    } else {
        Some(digits_value(digits) as int)
    }
}

/// The text of a number has at least one character, digits alone, and gives
/// the number back.
pub proof fn lemma_nat_text(n: nat)
    ensures
        nat_text(n).len() > 0,
        all_digits(nat_text(n)),
        digits_value(nat_text(n)) == n,
    decreases n,
{
    if n < 10 {
        let s = seq![digit_char(n)];
        assert(s.drop_last() =~= Seq::<char>::empty());
        assert(digits_value(s.drop_last()) == 0);
        assert(digit_value(s.last()) == n);
    } else {
        lemma_nat_text(n / 10);
        let s = nat_text(n / 10).push(digit_char(n % 10));
        assert(s.drop_last() =~= nat_text(n / 10));
        assert(digit_value(s.last()) == n % 10);
    }
}

/// Writing an integer and reading the text gives the integer.
pub proof fn lemma_int_text_round_trip(n: int)
    ensures
        int_of_text(int_text(n)) == Some(n),
{
    if n < 0 {
        let d = nat_text((-n) as nat);
        lemma_nat_text((-n) as nat);
        assert((seq!['-'] + d).skip(1) =~= d);
        assert((seq!['-'] + d)[0] == '-');
    } else {
        lemma_nat_text(n as nat);
        let d = nat_text(n as nat);
        assert(is_digit(d[0]));
    }
}

/// Reversal of a character vector.
fn reversed(v: &Vec<char>) -> (r: Vec<char>)
    ensures
        r@ == v@.reverse(),
{
    let mut out: Vec<char> = Vec::new();
    let mut i: usize = v.len();
    while i > 0
        invariant
            i <= v@.len(),
            out@.len() == v@.len() - i,
            forall|j: int| 0 <= j < out@.len() ==> out@[j] == v@[v@.len() - 1 - j],
        decreases i,
    {
        i = i - 1;
        out.push(v[i]);
    }
    assert(out@ =~= v@.reverse());
    out
}

/// The ASCII digit with the given value.
pub fn digit_of(d: u8) -> (r: char)
    requires
        d < 10,
    ensures
        r == digit_char(d as nat),
{
    (48u8 + d) as char
}

/// A natural number in base ten.
pub fn u64_text(n: u64) -> (r: String)
    ensures
        r@ == nat_text(n as nat),
{
    u128_text(n as u128)
}

/// A natural number in base ten.
pub fn u128_text(n: u128) -> (r: String)
    ensures
        r@ == nat_text(n as nat),
{
    let mut low_first: Vec<char> = Vec::new();
    let mut rest: u128 = n;
    while rest >= 10
        invariant
            nat_text(n as nat) == nat_text(rest as nat) + low_first@.reverse(),
        decreases rest,
    {
        let ghost before = low_first@;
        let d: u8 = (rest % 10) as u8;
        low_first.push(digit_of(d));
        proof {
            let c = digit_char((rest % 10) as nat);
            assert(low_first@.reverse() =~= seq![c] + before.reverse());
            assert(nat_text(rest as nat) == nat_text((rest / 10) as nat).push(c));
            assert(nat_text((rest / 10) as nat).push(c) + before.reverse() =~= nat_text(
                (rest / 10) as nat,
            ) + (seq![c] + before.reverse()));
        }
        rest = rest / 10;
    }
    let ghost before = low_first@;
    low_first.push(digit_of(rest as u8));
    proof {
        let c = digit_char(rest as nat);
        assert(low_first@.reverse() =~= seq![c] + before.reverse());
        assert(nat_text(rest as nat) =~= seq![c]);
    }
    let chars: Vec<char> = reversed(&low_first);
    from_chars(chars.as_slice())
}

/// An integer in base ten.
pub fn i64_text(n: i64) -> (r: String)
    ensures
        r@ == int_text(n as int),
{
    if n < 0 {
        let magnitude: u64 = (-(n + 1)) as u64 + 1;
        let digits: String = u64_text(magnitude);
        let mut out: String = String::new();
        out.push('-');
        out.append(digits.as_str());
        assert(out@ =~= seq!['-'] + digits@);
        out
    } else {
        u64_text(n as u64)
    }
}

/// A number in base ten.
pub fn usize_text(n: usize) -> (r: String)
    ensures
        r@ == nat_text(n as nat),
{
    u64_text(n as u64)
}

/// A natural number in base ten, padded with zeros on the left to `width`
/// characters.
pub fn padded(n: u64, width: usize) -> (r: String)
    ensures
        r@ == padded_text(n as nat, width as nat),
{
    if width == 0 {
        if n == 0 {
            String::new()
        } else {
            u64_text(n)
        }
    } else {
        padded_digits(n, width)
    }
}

/// The padded text of a number for a width of at least one.
fn padded_digits(n: u64, width: usize) -> (r: String)
    requires
        width > 0,
    ensures
        r@ == padded_text(n as nat, width as nat),
    decreases width,
{
    let mut out: String = if width == 1 {
        if n / 10 == 0 {
            String::new()
        } else {
            u64_text(n / 10)
        }
    } else {
        padded_digits(n / 10, width - 1)
    };
    out.push(digit_of((n % 10) as u8));
    proof {
        reveal_with_fuel(padded_text, 2);
    }
    out
}

/// Whether a character is an ASCII digit.
pub fn ascii_digit(c: char) -> (r: bool)
    ensures
        r == is_digit(c),
{
    '0' <= c && c <= '9'
}

/// The number that the characters from `from` on write in base ten, if they
/// are digits alone, at least one, and the number fits.
pub fn parse_digits(chars: &Vec<char>, from: usize) -> (r: Option<u64>)
    requires
        from <= chars@.len(),
    ensures
        ({
            let digits = chars@.skip(from as int);
            &&& r is Some <==> digits.len() > 0 && all_digits(digits) && digits_value(digits)
                <= u64::MAX
            &&& r is Some ==> r->0 == digits_value(digits)
        }),
{
    let ghost digits = chars@.skip(from as int);
    if from == chars.len() {
        return None;
    }
    let mut value: u64 = 0;
    let mut too_large: bool = false;
    let mut i: usize = from;
    while i < chars.len()
        invariant
            from <= i <= chars@.len(),
            digits == chars@.skip(from as int),
            forall|j: int| 0 <= j < i - from ==> is_digit(#[trigger] digits[j]),
            too_large ==> digits_value(digits.take(i - from)) > u64::MAX,
            !too_large ==> value == digits_value(digits.take(i - from)),
        decreases chars@.len() - i,
    {
        if !ascii_digit(chars[i]) {
            assert(!is_digit(digits[i - from]));
            return None;
        }
        proof {
            assert(digits.take(i - from + 1).drop_last() =~= digits.take(i - from));
            assert(digits.take(i - from + 1).last() == chars@[i as int]);
        }
        let d: u64 = (chars[i] as u64) - 48;
        if !too_large {
            match value.checked_mul(10) {
                None => {
                    too_large = true;
                },
                Some(tens) => {
                    match tens.checked_add(d) {
                        None => {
                            too_large = true;
                        },
                        Some(v) => {
                            value = v;
                        },
                    }
                },
            }
        }
        i = i + 1;
    }
    proof {
        assert(digits.take(i - from) =~= digits);
    }
    if too_large {
        None
    } else {
        Some(value)
    }
}

/// The signed 64-bit integer that a text writes in base ten.
pub fn parse_i64(s: &str) -> (r: Option<i64>)
    ensures
        match int_of_text(s@) {
            Some(v) => if i64::MIN <= v <= i64::MAX {
                r == Some(v as i64)
            } else {
                r is None
            },
            None => r is None,
        },
{
    let chars: Vec<char> = to_chars(s);
    let signed: bool = chars.len() > 0 && (chars[0] == '+' || chars[0] == '-');
    let negative: bool = signed && chars[0] == '-';
    let from: usize = if signed {
        1
    } else {
        0
    };
    assert(s@.skip(0) =~= s@);
    match parse_digits(&chars, from) {
        None => None,
        Some(magnitude) => {
            if negative {
                if magnitude <= 9_223_372_036_854_775_807 {
                    Some(-(magnitude as i64))
                } else if magnitude == 9_223_372_036_854_775_808 {
                    Some(i64::MIN)
                } else {
                    None
                }
            } else if magnitude <= 9_223_372_036_854_775_807 {
                Some(magnitude as i64)
            } else {
                None
            }
        },
    }
}

/// The unsigned 64-bit integer that a text writes in base ten; a plus sign
/// may stand in front, a minus sign may not.
pub fn parse_u64(s: &str) -> (r: Option<u64>)
    ensures
        match int_of_text(s@) {
            Some(v) => if s@[0] != '-' && v <= u64::MAX {
                r == Some(v as u64)
            } else {
                r is None
            },
            None => r is None,
        },
{
    let chars: Vec<char> = to_chars(s);
    if chars.len() > 0 && chars[0] == '-' {
        return None;
    }
    let from: usize = if chars.len() > 0 && chars[0] == '+' {
        1
    } else {
        0
    };
    assert(s@.skip(0) =~= s@);
    parse_digits(&chars, from)
}

/// A digit behind others counts once, and the others ten times as much.
pub proof fn law_digits_count_by_place(s: Seq<char>, d: nat)
    requires
        d < 10,
    ensures
        digits_value(s.push(digit_char(d))) == 10 * digits_value(s) + d,
        digits_value(Seq::empty()) == 0,
        is_digit(digit_char(d)),
{
    assert(s.push(digit_char(d)).drop_last() =~= s);
}

} // verus!
