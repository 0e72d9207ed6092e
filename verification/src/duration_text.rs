//! Durations as people write them: `1d2h30m10s`, `1天2小时30分钟10秒`.

use vstd::prelude::*;
use crate::number;
use crate::text;

verus! {

/// How many digits a text starts with.
pub open spec fn digit_run(s: Seq<char>) -> nat
    decreases s.len(),
{
    if s.len() > 0 && number::is_digit(s[0]) {
        1 + digit_run(s.skip(1))
    } else {
        0
    }
}

/// The unit that a text starts with: its length in seconds and the number of
/// characters that write it.
pub open spec fn unit_at(s: Seq<char>) -> Option<(int, nat)> {
    if s.len() == 0 {
        None
    } else if s[0] == 'd' || s[0] == 'D' || s[0] == '天' {
        Some((86_400, 1))
    } else if s[0] == 'h' || s[0] == 'H' {
        Some((3_600, 1))
    } else if s[0] == 'm' || s[0] == 'M' {
        Some((60, 1))
    } else if s[0] == 's' || s[0] == 'S' || s[0] == '秒' {
        Some((1, 1))
    } else if s[0] == '小' && s.len() > 1 && s[1] == '时' {
        Some((3_600, 2))
    } else if s[0] == '分' && s.len() > 1 && s[1] == '钟' {
        Some((60, 2))
    } else {
        None
    }
}

/// Dropping leading white space does not lengthen a text.
pub proof fn lemma_trimmed_start_len(s: Seq<char>)
    ensures
        text::trimmed_start(s).len() <= s.len(),
    decreases s.len(),
{
    if s.len() > 0 && text::is_white_space(s[0]) {
        lemma_trimmed_start_len(s.skip(1));
    }
}

/// The run of digits lies within the text.
pub proof fn lemma_digit_run(s: Seq<char>)
    ensures
        digit_run(s) <= s.len(),
        number::all_digits(s.take(digit_run(s) as int)),
        digit_run(s) < s.len() ==> !number::is_digit(s[digit_run(s) as int]),
    decreases s.len(),
{
    if s.len() > 0 && number::is_digit(s[0]) {
        let t = s.skip(1);
        lemma_digit_run(t);
        let n = digit_run(s);
        assert forall|i: int| 0 <= i < n implies number::is_digit(#[trigger] s.take(n as int)[i]) by {
            if i > 0 {
                assert(t.take(n - 1)[i - 1] == s[i]);
                assert(number::is_digit(t.take(digit_run(t) as int)[i - 1]));
            }
        }
        if n < s.len() {
            assert(t[n - 1] == s[n as int]);
        }
    }
}

/// What a text adds to a number of seconds: components of digits and a unit,
/// with white space and underscores between them and white space in front of
/// the unit. `seen` tells whether a component came before.
pub open spec fn seconds_of(s: Seq<char>, total: int, seen: bool) -> Result<int, Seq<char>>
    decreases s.len(),
{
    if s.len() == 0 {
        if seen && total > 0 {
            Ok(total)
        } else {
            Err("限制时间需要填写大于 0 的时长"@)
        }
    } else if text::is_white_space(s[0]) || s[0] == '_' {
        seconds_of(s.skip(1), total, seen)
    } else {
        let n = digit_run(s);
        let value = number::digits_value(s.take(n as int));
        let rest = text::trimmed_start(s.skip(n as int));
        if n == 0 {
            Err("限制时间需要填写数字和单位, 例如 1d2h30m10s"@)
        } else if value > i64::MAX {
            Err("限制时间需要填写有效数字"@)
        } else {
            match unit_at(rest) {
                None => Err("无法识别的时间单位"@),
                Some((unit, width)) => if value * unit > i64::MAX || total + value * unit
                    > i64::MAX {
                    Err("限制时间数值过大"@)
                } else {
                    proof {
                        lemma_digit_run(s);
                        lemma_trimmed_start_len(s.skip(n as int));
                    }
                    seconds_of(rest.skip(width as int), total + value * unit, true)
                },
            }
        }
    }
}

/// The number of seconds that an input stands for, or a message.
pub open spec fn duration_of(input: Seq<char>) -> Result<int, Seq<char>> {
    seconds_of(input, 0, false)
}

proof fn lemma_seconds_positive(s: Seq<char>, total: int, seen: bool)
    ensures
        seconds_of(s, total, seen) matches Ok(seconds) ==> seconds > 0,
    decreases s.len(),
{
    if s.len() == 0 {
    } else if text::is_white_space(s[0]) || s[0] == '_' {
        lemma_seconds_positive(s.skip(1), total, seen);
    } else {
        let n = digit_run(s);
        let value = number::digits_value(s.take(n as int));
        let rest = text::trimmed_start(s.skip(n as int));
        if n > 0 && value <= i64::MAX {
            if let Some((unit, width)) = unit_at(rest) {
                lemma_digit_run(s);
                lemma_trimmed_start_len(s.skip(n as int));
                lemma_seconds_positive(rest.skip(width as int), total + value * unit, true);
            }
        }
    }
}

/// A duration is at least a second.
pub proof fn lemma_duration_positive(input: Seq<char>)
    ensures
        duration_of(input) matches Ok(seconds) ==> seconds > 0,
{
    lemma_seconds_positive(input, 0, false);
}

/// The unit at a position of a text.
fn read_unit(chars: &Vec<char>, at: usize) -> (r: Option<(i64, usize)>)
    requires
        at <= chars@.len(),
    ensures
        match (r, unit_at(chars@.skip(at as int))) {
            (Some((unit, width)), Some((u, w))) => unit == u && width == w && 1 <= unit <= 86_400
                && at + width <= chars@.len(),
            (None, None) => true,
            _ => false,
        },
{
    let ghost s = chars@.skip(at as int);
    if at >= chars.len() {
        return None;
    }
    let c: char = chars[at];
    assert(s[0] == c);
    let next: Option<char> = if at + 1 < chars.len() {
        assert(s[1] == chars@[at + 1]);
        Some(chars[at + 1])
    } else {
        None
    };
    if c == 'd' || c == 'D' || c == '天' {
        Some((86_400, 1))
    } else if c == 'h' || c == 'H' {
        Some((3_600, 1))
    } else if c == 'm' || c == 'M' {
        Some((60, 1))
    } else if c == 's' || c == 'S' || c == '秒' {
        Some((1, 1))
    } else {
        match next {
            Some(n) => if c == '小' && n == '时' {
                Some((3_600, 2))
            } else if c == '分' && n == '钟' {
                Some((60, 2))
            } else {
                None
            },
            None => None,
        }
    }
}

/// The end of the digits from a position on.
fn skip_digits(chars: &Vec<char>, from: usize) -> (r: usize)
    requires
        from <= chars@.len(),
    ensures
        from <= r <= chars@.len(),
        r - from == digit_run(chars@.skip(from as int)),
{
    let ghost s = chars@.skip(from as int);
    let mut i: usize = from;
    assert(s.skip(0) =~= s);
    while i < chars.len() && number::ascii_digit(chars[i])
        invariant
            from <= i <= chars@.len(),
            s == chars@.skip(from as int),
            digit_run(s) == (i - from) + digit_run(s.skip(i - from)),
        decreases chars@.len() - i,
    {
        proof {
            assert(s.skip(i - from)[0] == chars@[i as int]);
            assert(s.skip(i - from).skip(1) =~= s.skip(i - from + 1));
        }
        i = i + 1;
    }
    proof {
        if i < chars@.len() {
            assert(s.skip(i - from)[0] == chars@[i as int]);
        }
    }
    i
}

/// The end of the white space from a position on.
fn skip_white_space(chars: &Vec<char>, from: usize) -> (r: usize)
    requires
        from <= chars@.len(),
    ensures
        from <= r <= chars@.len(),
        chars@.skip(r as int) == text::trimmed_start(chars@.skip(from as int)),
{
    let ghost s = chars@.skip(from as int);
    let mut i: usize = from;
    while i < chars.len() && text::white_space(chars[i])
        invariant
            from <= i <= chars@.len(),
            text::trimmed_start(s) == text::trimmed_start(chars@.skip(i as int)),
        decreases chars@.len() - i,
    {
        proof {
            assert(chars@.skip(i as int)[0] == chars@[i as int]);
            assert(chars@.skip(i as int).skip(1) =~= chars@.skip(i + 1));
        }
        i = i + 1;
    }
    proof {
        if i < chars@.len() {
            assert(chars@.skip(i as int)[0] == chars@[i as int]);
        }
    }
    i
}

/// The number that a run of digits writes, if it is a signed 64-bit one.
fn read_value(chars: &Vec<char>, from: usize, to: usize) -> (r: Option<i64>)
    requires
        from < to <= chars@.len(),
        number::all_digits(chars@.subrange(from as int, to as int)),
    ensures
        ({
            let v = number::digits_value(chars@.subrange(from as int, to as int));
            if v > i64::MAX {
                r is None
            } else {
                r == Some(v as i64)
            }
        }),
{
    let digits: String = text::slice_chars(chars, from, to);
    let run: Vec<char> = text::to_chars(digits.as_str());
    assert(run@.skip(0) =~= run@);
    match number::parse_digits(&run, 0) {
        Some(v) => if v <= 9_223_372_036_854_775_807 {
            Some(v as i64)
        } else {
            None
        },
        None => None,
    }
}

/// Whether an outcome is the given number of seconds or message.
pub open spec fn is_outcome(r: Result<i64, String>, expected: Result<int, Seq<char>>) -> bool {
    match (r, expected) {
        (Ok(v), Ok(x)) => v == x,
        (Err(e), Err(m)) => e@ == m,
        _ => false,
    }
}

/// The number of seconds that an input stands for, or a message.
pub fn parse_duration_seconds(input: &str) -> (r: Result<i64, String>)
    ensures
        is_outcome(r, duration_of(input@)),
{
    let chars: Vec<char> = text::to_chars(input);
    let mut i: usize = 0;
    let mut total: i64 = 0;
    let mut seen: bool = false;
    assert(input@.skip(0) =~= input@);
    while i < chars.len()
        invariant
            chars@ == input@,
            i <= chars@.len(),
            0 <= total,
            duration_of(input@) == seconds_of(input@.skip(i as int), total as int, seen),
        decreases chars@.len() - i,
    {
        let ghost s = input@.skip(i as int);
        assert(s[0] == chars@[i as int]);
        let c: char = chars[i];
        if text::white_space(c) || c == '_' {
            assert(s.skip(1) =~= input@.skip(i + 1));
            i = i + 1;
        } else {
            let digits_end: usize = skip_digits(&chars, i);
            if digits_end == i {
                return Err(String::from_str("限制时间需要填写数字和单位, 例如 1d2h30m10s"));
            }
            proof {
                lemma_digit_run(s);
                assert(chars@.subrange(i as int, digits_end as int) =~= s.take(
                    digit_run(s) as int,
                ));
                assert(chars@.skip(digits_end as int) =~= s.skip(digit_run(s) as int));
            }
            let unit_start: usize = skip_white_space(&chars, digits_end);
            let value: i64 = match read_value(&chars, i, digits_end) {
                Some(v) => v,
                None => return Err(String::from_str("限制时间需要填写有效数字")),
            };
            let (unit, width): (i64, usize) = match read_unit(&chars, unit_start) {
                Some(u) => u,
                None => return Err(String::from_str("无法识别的时间单位")),
            };
            proof {
                assert(value * unit >= 0) by (nonlinear_arith)
                    requires
                        value >= 0,
                        unit >= 1,
                ;
                assert(chars@.skip(unit_start as int).skip(width as int) =~= chars@.skip(
                    unit_start + width,
                ));
            }
            let product: i64 = match value.checked_mul(unit) {
                Some(p) => p,
                None => return Err(String::from_str("限制时间数值过大")),
            };
            total = match total.checked_add(product) {
                Some(t) => t,
                None => return Err(String::from_str("限制时间数值过大")),
            };
            seen = true;
            i = unit_start + width;
        }
    }
    assert(input@.skip(i as int).len() == 0);
    if !seen || total <= 0 {
        Err(String::from_str("限制时间需要填写大于 0 的时长"))
    } else {
        Ok(total)
    }
}

/// One component of a duration, left out where it is zero.
pub open spec fn component(n: int, unit: char) -> Seq<char> {
    if n > 0 {
        number::nat_text(n as nat).push(unit)
    } else {
        Seq::empty()
    }
}

/// A duration in days, hours, minutes and seconds.
pub open spec fn duration_text(seconds: int) -> Seq<char> {
    if seconds <= 0 {
        "0s"@
    } else {
        component(seconds / 86_400, 'd') + component((seconds % 86_400) / 3_600, 'h') + component(
            (seconds % 3_600) / 60,
            'm',
        ) + component(seconds % 60, 's')
    }
}

/// One component of a duration.
fn format_component(n: i64, unit: char) -> (r: String)
    ensures
        r@ == component(n as int, unit),
{
    if n > 0 {
        let mut out: String = number::u64_text(n as u64);
        out.push(unit);
        out
    } else {
        String::new()
    }
}

/// A duration in days, hours, minutes and seconds.
pub fn format_duration_seconds(seconds: i64) -> (r: String)
    ensures
        r@ == duration_text(seconds as int),
{
    if seconds <= 0 {
        return String::from_str("0s");
    }
    let mut out: String = format_component(seconds / 86_400, 'd');
    out.append(format_component((seconds % 86_400) / 3_600, 'h').as_str());
    out.append(format_component((seconds % 3_600) / 60, 'm').as_str());
    out.append(format_component(seconds % 60, 's').as_str());
    out
}

/// The digits of a number in front of a text that starts with none are its
/// run of digits.
proof fn lemma_run_of(digits: Seq<char>, rest: Seq<char>)
    requires
        number::all_digits(digits),
        rest.len() > 0,
        !number::is_digit(rest[0]),
    ensures
        digit_run(digits + rest) == digits.len(),
    decreases digits.len(),
{
    let s = digits + rest;
    if digits.len() > 0 {
        assert(number::is_digit(digits[0]));
        assert(s[0] == digits[0]);
        let t = digits.skip(1);
        assert forall|i: int| 0 <= i < t.len() implies number::is_digit(#[trigger] t[i]) by {
            assert(t[i] == digits[i + 1]);
        }
        assert(s.skip(1) =~= t + rest);
        lemma_run_of(t, rest);
    } else {
        assert(s =~= rest);
    }
}

/// Reading one component adds it to the total.
proof fn lemma_component_read(n: int, unit: char, seconds: int, rest: Seq<char>, total: int, seen: bool)
    requires
        0 <= n <= i64::MAX,
        unit_at(seq![unit]) == Some((seconds, 1nat)),
        unit != '小' && unit != '分',
        !number::is_digit(unit) && !text::is_white_space(unit),
        0 < seconds,
        0 <= total,
        n * seconds <= i64::MAX,
        total + n * seconds <= i64::MAX,
    ensures
        seconds_of(component(n, unit) + rest, total, seen) == seconds_of(
            rest,
            total + n * seconds,
            seen || n > 0,
        ),
{
    if n == 0 {
        assert(component(n, unit) + rest =~= rest);
        assert(0 * seconds == 0);
    } else {
        let digits = number::nat_text(n as nat);
        number::lemma_nat_text(n as nat);
        let tail = seq![unit] + rest;
        let s = component(n, unit) + rest;
        assert(s =~= digits + tail);
        assert(tail[0] == unit);
        lemma_run_of(digits, tail);
        assert(number::is_digit(digits[0]));
        assert(s[0] == digits[0]);
        assert(s.take(digits.len() as int) =~= digits);
        assert(s.skip(digits.len() as int) =~= tail);
        assert(text::trimmed_start(tail) == tail);
        assert(seq![unit][0] == unit);
        assert(unit_at(tail) == Some((seconds, 1nat)));
        assert(tail.skip(1) =~= rest);
    }
}

/// A number of seconds is the sum of its components.
proof fn lemma_components(seconds: int)
    requires
        0 < seconds <= i64::MAX,
    ensures
        seconds == (seconds / 86_400) * 86_400 + ((seconds % 86_400) / 3_600) * 3_600 + ((seconds
            % 3_600) / 60) * 60 + seconds % 60,
        0 <= seconds / 86_400,
        0 <= (seconds % 86_400) / 3_600 < 24,
        0 <= (seconds % 3_600) / 60 < 60,
        0 <= seconds % 60 < 60,
{
}

/// Four components in a row add up.
proof fn lemma_components_read(d: int, h: int, m: int, s: int)
    requires
        0 <= d,
        0 <= h < 24,
        0 <= m < 60,
        0 <= s < 60,
        0 < d * 86_400 + h * 3_600 + m * 60 + s <= i64::MAX,
    ensures
        duration_of(component(d, 'd') + component(h, 'h') + component(m, 'm') + component(s, 's'))
            == Ok::<int, Seq<char>>(d * 86_400 + h * 3_600 + m * 60 + s),
{
    let end = Seq::<char>::empty();
    let e = component(s, 's') + end;
    let c = component(m, 'm') + e;
    let b = component(h, 'h') + c;
    let a = component(d, 'd') + b;
    assert(component(d, 'd') + component(h, 'h') + component(m, 'm') + component(s, 's') =~= a);
    let t1 = d * 86_400;
    let t2 = t1 + h * 3_600;
    let t3 = t2 + m * 60;
    assert(seconds_of(a, 0, false) == seconds_of(b, t1, d > 0)) by {
        lemma_component_read(d, 'd', 86_400, b, 0, false);
    }
    assert(seconds_of(b, t1, d > 0) == seconds_of(c, t2, d > 0 || h > 0)) by {
        lemma_component_read(h, 'h', 3_600, c, t1, d > 0);
    }
    assert(seconds_of(c, t2, d > 0 || h > 0) == seconds_of(e, t3, d > 0 || h > 0 || m > 0)) by {
        lemma_component_read(m, 'm', 60, e, t2, d > 0 || h > 0);
    }
    assert(seconds_of(e, t3, d > 0 || h > 0 || m > 0) == seconds_of(
        end,
        t3 + s,
        d > 0 || h > 0 || m > 0 || s > 0,
    )) by {
        assert(s * 1 == s);
        lemma_component_read(s, 's', 1, end, t3, d > 0 || h > 0 || m > 0);
    }
}

/// Writing a duration and reading it again gives the duration.
pub proof fn law_duration_round_trip(seconds: int)
    requires
        0 < seconds <= i64::MAX,
    ensures
        duration_of(duration_text(seconds)) == Ok::<int, Seq<char>>(seconds),
{
    lemma_components(seconds);
    lemma_components_read(
        seconds / 86_400,
        (seconds % 86_400) / 3_600,
        (seconds % 3_600) / 60,
        seconds % 60,
    );
}

/// One number in front of one unit is read as their product.
proof fn lemma_one_component(n: int, unit: char, seconds: int)
    requires
        0 < n,
        unit_at(seq![unit]) == Some((seconds, 1nat)),
        unit != '小' && unit != '分',
        !number::is_digit(unit) && !text::is_white_space(unit),
        0 < seconds <= 86_400,
        n * 86_400 <= i64::MAX,
    ensures
        duration_of(number::nat_text(n as nat).push(unit)) == Ok::<int, Seq<char>>(n * seconds),
{
    assert(0 < n * seconds <= n * 86_400) by (nonlinear_arith)
        requires
            0 < n,
            0 < seconds <= 86_400,
    ;
    lemma_component_read(n, unit, seconds, Seq::empty(), 0, false);
    assert(component(n, unit) + Seq::<char>::empty() =~= number::nat_text(n as nat).push(unit));
}

/// A number in front of a unit stands for that many days, hours, minutes or
/// seconds; the letters may be of either case.
pub proof fn law_units_are_days_hours_minutes_seconds(n: int)
    requires
        0 < n,
        n * 86_400 <= i64::MAX,
    ensures
        duration_of(number::nat_text(n as nat).push('s')) == Ok::<int, Seq<char>>(n),
        duration_of(number::nat_text(n as nat).push('S')) == Ok::<int, Seq<char>>(n),
        duration_of(number::nat_text(n as nat).push('秒')) == Ok::<int, Seq<char>>(n),
        duration_of(number::nat_text(n as nat).push('m')) == Ok::<int, Seq<char>>(60 * n),
        duration_of(number::nat_text(n as nat).push('M')) == Ok::<int, Seq<char>>(60 * n),
        duration_of(number::nat_text(n as nat).push('h')) == Ok::<int, Seq<char>>(3_600 * n),
        duration_of(number::nat_text(n as nat).push('H')) == Ok::<int, Seq<char>>(3_600 * n),
        duration_of(number::nat_text(n as nat).push('d')) == Ok::<int, Seq<char>>(86_400 * n),
        duration_of(number::nat_text(n as nat).push('D')) == Ok::<int, Seq<char>>(86_400 * n),
        duration_of(number::nat_text(n as nat).push('天')) == Ok::<int, Seq<char>>(86_400 * n),
{
    lemma_one_component(n, 's', 1);
    lemma_one_component(n, 'S', 1);
    lemma_one_component(n, '秒', 1);
    lemma_one_component(n, 'm', 60);
    lemma_one_component(n, 'M', 60);
    lemma_one_component(n, 'h', 3_600);
    lemma_one_component(n, 'H', 3_600);
    lemma_one_component(n, 'd', 86_400);
    lemma_one_component(n, 'D', 86_400);
    lemma_one_component(n, '天', 86_400);
}

} // verus!
