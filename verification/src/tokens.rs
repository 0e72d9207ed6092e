//! How token counts and costs are shown.

use vstd::prelude::*;
use vstd::arithmetic::power2;
use crate::double;
use crate::float64;
use crate::float64::{Double, Float64};
use crate::number;
use crate::text;

verus! {

/// Token counts rounded to a unit, or in full.
#[derive(Debug, Clone, Copy, PartialEq, Eq, Structural)]
pub enum TokenDisplayMode {
    Human,
    Raw,
}

impl TokenDisplayMode {
    /// The other mode.
    pub open spec fn other(self) -> Self {
        match self {
            TokenDisplayMode::Human => TokenDisplayMode::Raw,
            TokenDisplayMode::Raw => TokenDisplayMode::Human,
        }
    }

    /// Switches to the other mode.
    pub fn toggle(&mut self)
        ensures
            *final(self) == old(self).other(),
    {
        *self = match *self {
            TokenDisplayMode::Human => TokenDisplayMode::Raw,
            TokenDisplayMode::Raw => TokenDisplayMode::Human,
        };
    }
}

/// Costs in US dollars or in yuan.
#[derive(Debug, Clone, Copy, PartialEq, Eq, Structural)]
pub enum CurrencyDisplayMode {
    Usd,
    Cny,
}

impl CurrencyDisplayMode {
    /// The other currency.
    pub open spec fn other(self) -> Self {
        match self {
            CurrencyDisplayMode::Usd => CurrencyDisplayMode::Cny,
            CurrencyDisplayMode::Cny => CurrencyDisplayMode::Usd,
        }
    }

    /// Switches to the other currency.
    pub fn toggle(&mut self)
        ensures
            *final(self) == old(self).other(),
    {
        *self = match *self {
            CurrencyDisplayMode::Usd => CurrencyDisplayMode::Cny,
            CurrencyDisplayMode::Cny => CurrencyDisplayMode::Usd,
        };
    }
}

/// Switching twice changes nothing.
pub proof fn law_toggle_twice(tokens: TokenDisplayMode, currency: CurrencyDisplayMode)
    ensures
        tokens.other().other() == tokens,
        tokens.other() != tokens,
        currency.other().other() == currency,
        currency.other() != currency,
{
}

/// The unit of a magnitude of at least a thousand, with its scale.
pub open spec fn human_unit(magnitude: nat) -> (Seq<char>, nat) {
    if magnitude < 1_000_000 {
        ("K"@, 1_000)
    } else if magnitude < 1_000_000_000 {
        ("M"@, 1_000_000)
    } else {
        ("B"@, 1_000_000_000)
    }
}

/// How many decimals a scaled magnitude is shown with: one below ten.
pub open spec fn human_decimals(magnitude: nat, scale: nat) -> nat {
    let q = float64::nearest(float64::as_double(magnitude), scale);
    if q.0 * power2::pow2(q.1) < 10 * power2::pow2(float64::smallest()) {
        1
    } else {
        0
    }
}

/// A magnitude of at least a thousand in its unit.
pub open spec fn human_magnitude(magnitude: nat) -> Seq<char> {
    let (unit, scale) = human_unit(magnitude);
    float64::quotient_text(magnitude, scale, human_decimals(magnitude, scale)) + unit
}

/// A token count rounded to a unit.
pub open spec fn human_text(value: int) -> Seq<char> {
    let magnitude = if value < 0 {
        (-value) as nat
    } else {
        value as nat
    };
    if magnitude < 1_000 {
        number::int_text(value)
    } else if value < 0 {
        seq!['-'] + human_magnitude(magnitude)
    } else {
        human_magnitude(magnitude)
    }
}

/// The text of a token count in a mode.
pub open spec fn tokens_text(mode: TokenDisplayMode, value: int) -> Seq<char> {
    match mode {
        TokenDisplayMode::Raw => number::int_text(value),
        TokenDisplayMode::Human => human_text(value),
    }
}

/// A magnitude of at least a thousand in its unit.
fn format_magnitude(magnitude: u64) -> (r: String)
    requires
        1_000 <= magnitude,
    ensures
        r@ == human_magnitude(magnitude as nat),
{
    let (unit, scale): (&str, u64) = if magnitude < 1_000_000 {
        ("K", 1_000)
    } else if magnitude < 1_000_000_000 {
        ("M", 1_000_000)
    } else {
        ("B", 1_000_000_000)
    };
    let d: u128 = float64::double_of(magnitude);
    let x: Float64 = float64::nearest_quotient(d, scale);
    let decimals: u32 = if float64::is_below(x, 10) {
        1
    } else {
        0
    };
    let shown: String = float64::format_quotient(magnitude, scale, decimals);
    text::concat(shown.as_str(), unit)
}

/// A token count rounded to thousands, millions or billions.
///
/// The smallest 64-bit integer has no absolute value.
pub fn human_tokens(value: i64) -> (r: String)
    requires
        value > i64::MIN,
    ensures
        r@ == human_text(value as int),
{
    let magnitude: u64 = if value < 0 {
        (-value) as u64
    } else {
        value as u64
    };
    if magnitude < 1_000 {
        return number::i64_text(value);
    }
    let shown: String = format_magnitude(magnitude);
    if value < 0 {
        let mut out: String = String::new();
        out.push('-');
        out.append(shown.as_str());
        assert(out@ =~= seq!['-'] + shown@);
        out
    } else {
        shown
    }
}

/// A token count in a display mode.
pub fn format_tokens(mode: TokenDisplayMode, value: i64) -> (r: String)
    requires
        mode == TokenDisplayMode::Human ==> value > i64::MIN,
    ensures
        r@ == tokens_text(mode, value as int),
{
    match mode {
        TokenDisplayMode::Raw => number::i64_text(value),
        TokenDisplayMode::Human => human_tokens(value),
    }
}

/// How many yuan a dollar costs, and when that was looked up.
#[derive(Debug, Clone, Copy)]
pub struct UsdCnyRate {
    pub rate: Double,
    pub fetched_at: i64,
}

/// An amount behind a currency sign: six decimals below a hundredth of a cent,
/// four below one, two otherwise, and none of zero.
pub open spec fn amount_text(value: Double, prefix: Seq<char>) -> Seq<char> {
    let abs = double::absolute(value);
    if double::is_nothing(value) {
        prefix + "0"@
    } else if double::below(abs, double::rounded(false, 1, 10_000)) {
        prefix + double::fixed(value, 6)
    } else if double::below(abs, double::rounded(false, 1, 1)) {
        prefix + double::fixed(value, 4)
    } else {
        prefix + double::fixed(value, 2)
    }
}

/// A cost in dollars, shown in the chosen currency; in dollars where no rate
/// is known.
pub open spec fn cost_text(
    value: Double,
    mode: CurrencyDisplayMode,
    rate: Option<UsdCnyRate>,
) -> Seq<char> {
    match (mode, rate) {
        (CurrencyDisplayMode::Cny, Some(rate)) => amount_text(
            double::product_of(value, rate.rate),
            "¥"@,
        ),
        _ => amount_text(value, "$"@),
    }
}

/// An amount behind a currency sign.
pub fn format_amount(value: Double, prefix: &str) -> (r: String)
    requires
        value.wf(),
    ensures
        r@ == amount_text(value, prefix@),
{
    let abs: Double = value.abs();
    if value.is_zero() {
        text::concat(prefix, "0")
    } else if abs.is_below(Double::from_fraction(1, 10_000)) {
        text::concat(prefix, value.to_fixed(6).as_str())
    } else if abs.is_below(Double::from_fraction(1, 1)) {
        text::concat(prefix, value.to_fixed(4).as_str())
    } else {
        text::concat(prefix, value.to_fixed(2).as_str())
    }
}

/// An amount in dollars.
pub fn format_usd(value: Double) -> (r: String)
    requires
        value.wf(),
    ensures
        r@ == amount_text(value, "$"@),
{
    format_amount(value, "$")
}

/// A cost in dollars, shown in the chosen currency.
pub fn format_cost(value: Double, mode: CurrencyDisplayMode, rate: Option<UsdCnyRate>) -> (r: String)
    requires
        value.wf(),
        rate matches Some(rate) ==> rate.rate.wf(),
    ensures
        r@ == cost_text(value, mode, rate),
{
    match mode {
        CurrencyDisplayMode::Usd => format_usd(value),
        CurrencyDisplayMode::Cny => match rate {
            Some(rate) => format_amount(value.times(rate.rate), "¥"),
            None => format_usd(value),
        },
    }
}

/// What is said of a cost when pointed at.
pub open spec fn hover_text(mode: CurrencyDisplayMode, rate: Option<UsdCnyRate>) -> Seq<char> {
    match (mode, rate) {
        (CurrencyDisplayMode::Usd, Some(rate)) => "汇率 1 USD = "@ + double::fixed(rate.rate, 4)
            + " CNY, 点击切换为人民币显示"@,
        (CurrencyDisplayMode::Usd, None) => "尚未获取汇率, 可通过\"获取模型信息\"按钮获取, 点击切换显示"@,
        (CurrencyDisplayMode::Cny, Some(rate)) => "汇率 1 USD = "@ + double::fixed(rate.rate, 4)
            + " CNY, 点击切换为美元显示"@,
        (CurrencyDisplayMode::Cny, None) => "尚未获取汇率, 暂时显示美元, 点击切换显示"@,
    }
}

/// What is said of a cost when pointed at.
pub fn cost_hover_text(mode: CurrencyDisplayMode, rate: Option<UsdCnyRate>) -> (r: String)
    requires
        rate matches Some(rate) ==> rate.rate.wf(),
    ensures
        r@ == hover_text(mode, rate),
{
    match (mode, rate) {
        (CurrencyDisplayMode::Usd, Some(rate)) => text::concat3(
            "汇率 1 USD = ",
            rate.rate.to_fixed(4).as_str(),
            " CNY, 点击切换为人民币显示",
        ),
        (CurrencyDisplayMode::Usd, None) => {
            "尚未获取汇率, 可通过\"获取模型信息\"按钮获取, 点击切换显示".to_string()
        },
        (CurrencyDisplayMode::Cny, Some(rate)) => text::concat3(
            "汇率 1 USD = ",
            rate.rate.to_fixed(4).as_str(),
            " CNY, 点击切换为美元显示",
        ),
        (CurrencyDisplayMode::Cny, None) => {
            "尚未获取汇率, 暂时显示美元, 点击切换显示".to_string()
        },
    }
}

/// The line of an estimated cost under a label.
pub fn estimated_cost_text(
    label: &str,
    value: Option<Double>,
    mode: CurrencyDisplayMode,
    rate: Option<UsdCnyRate>,
) -> (r: String)
    requires
        value matches Some(value) ==> value.wf(),
        rate matches Some(rate) ==> rate.rate.wf(),
    ensures
        r@ == match value {
            Some(value) => label@ + ": "@ + cost_text(value, mode, rate),
            None => label@ + ": 无价格缓存"@,
        },
{
    match value {
        Some(value) => text::concat3(label, ": ", format_cost(value, mode, rate).as_str()),
        None => text::concat(label, ": 无价格缓存"),
    }
}

/// The unit of a count is the largest that it reaches: at least one of it and,
/// but for the largest, fewer than a thousand.
pub proof fn law_unit_suits_the_count(magnitude: nat)
    requires
        magnitude >= 1_000,
    ensures
        ({
            let (unit, scale) = human_unit(magnitude);
            &&& scale <= magnitude
            &&& magnitude < 1_000 * scale || unit == "B"@
            &&& (unit == "K"@ && scale == 1_000) || (unit == "M"@ && scale == 1_000_000) || (unit
                == "B"@ && scale == 1_000_000_000)
        }),
{
}

/// Counts below a thousand, of either sign, are shown in full in both modes,
/// larger ones in full in one mode. A count and its opposite differ in the sign
/// alone.
pub proof fn law_small_counts_are_shown_in_full(value: int)
    ensures
        tokens_text(TokenDisplayMode::Raw, value) == number::int_text(value),
        -1_000 < value < 1_000 ==> tokens_text(TokenDisplayMode::Human, value)
            == number::int_text(value),
        value >= 1_000 ==> tokens_text(TokenDisplayMode::Human, -value) == seq!['-']
            + tokens_text(TokenDisplayMode::Human, value),
        value >= 1_000_000_000 ==> tokens_text(TokenDisplayMode::Human, value).last() == 'B',
        1_000_000 <= value < 1_000_000_000 ==> tokens_text(
            TokenDisplayMode::Human,
            value,
        ).last() == 'M',
        1_000 <= value < 1_000_000 ==> tokens_text(TokenDisplayMode::Human, value).last() == 'K',
{
    reveal_strlit("K");
    reveal_strlit("M");
    reveal_strlit("B");
}

/// An amount stands behind its sign: zero as a bare zero, what is at least one
/// with two decimals, less with four, and what is below a ten-thousandth with
/// six.
pub proof fn law_small_amounts_have_more_decimals(value: Double, prefix: Seq<char>)
    ensures
        prefix.is_prefix_of(amount_text(value, prefix)),
        double::is_nothing(value) ==> amount_text(value, prefix) == prefix + "0"@,
        !double::is_nothing(value) && !double::below(double::absolute(value), double::of_int(1))
            && !double::below(double::absolute(value), double::rounded(false, 1, 10_000))
            ==> amount_text(value, prefix) == prefix + double::fixed(value, 2),
        !double::is_nothing(value) && double::below(double::absolute(value), double::of_int(1))
            && !double::below(double::absolute(value), double::rounded(false, 1, 10_000))
            ==> amount_text(value, prefix) == prefix + double::fixed(value, 4),
        !double::is_nothing(value) && double::below(double::absolute(value), double::of_int(1))
            && double::below(double::absolute(value), double::rounded(false, 1, 10_000))
            ==> amount_text(value, prefix) == prefix + double::fixed(value, 6),
{
}

/// A cost is shown in yuan only where that was chosen and a rate is known, and
/// then multiplied by it; otherwise it is the amount in dollars, whatever the
/// rate.
pub proof fn law_cost_is_converted_by_the_rate(value: Double, rate: UsdCnyRate)
    ensures
        cost_text(value, CurrencyDisplayMode::Usd, Some(rate)) == amount_text(value, "$"@),
        cost_text(value, CurrencyDisplayMode::Usd, None) == amount_text(value, "$"@),
        cost_text(value, CurrencyDisplayMode::Cny, None) == amount_text(value, "$"@),
        cost_text(value, CurrencyDisplayMode::Cny, Some(rate)) == amount_text(
            double::product_of(value, rate.rate),
            "¥"@,
        ),
{
}

/// What is said of a cost names the rate where there is one, and the currency
/// that a click leads to.
pub proof fn law_hover_names_rate_and_the_other_currency(rate: UsdCnyRate)
    ensures
        ("汇率 1 USD = "@ + double::fixed(rate.rate, 4)).is_prefix_of(
            hover_text(CurrencyDisplayMode::Usd, Some(rate)),
        ),
        ("汇率 1 USD = "@ + double::fixed(rate.rate, 4)).is_prefix_of(
            hover_text(CurrencyDisplayMode::Cny, Some(rate)),
        ),
        text::occurs_in(hover_text(CurrencyDisplayMode::Usd, Some(rate)), "切换为人民币显示"@),
        text::occurs_in(hover_text(CurrencyDisplayMode::Cny, Some(rate)), "切换为美元显示"@),
{
    reveal_strlit("汇率 1 USD = ");
    reveal_strlit(" CNY, 点击切换为人民币显示");
    reveal_strlit(" CNY, 点击切换为美元显示");
    reveal_strlit("切换为人民币显示");
    reveal_strlit("切换为美元显示");
    let a = hover_text(CurrencyDisplayMode::Usd, Some(rate));
    let b = hover_text(CurrencyDisplayMode::Cny, Some(rate));
    let i: int = a.len() - 8;
    let j: int = b.len() - 7;
    assert(a.subrange(i, i + 8) =~= "切换为人民币显示"@);
    assert(b.subrange(j, j + 7) =~= "切换为美元显示"@);
    assert(text::occurs_at(a, "切换为人民币显示"@, i));
    assert(text::occurs_at(b, "切换为美元显示"@, j));
}

} // verus!
