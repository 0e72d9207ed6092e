use codex_switch::duration_text::{format_duration_seconds, parse_duration_seconds};
use codex_switch::float64::Double;
use codex_switch::token_amount::{
    format_token_input, parse_optional_token_amount, parse_token_amount,
};
use codex_switch::tokens::{
    cost_hover_text, estimated_cost_text, format_cost, format_tokens, format_usd,
    CurrencyDisplayMode, TokenDisplayMode, UsdCnyRate,
};

fn double(x: f64) -> Double {
    Double::from_bits(x.to_bits())
}

#[test]
fn parses_combined_duration_suffixes() {
    assert_eq!(parse_duration_seconds("1d2h30m10s"), Ok(95410));
    assert_eq!(parse_duration_seconds("2D 1H 5M 3S"), Ok(176703));
    assert_eq!(parse_duration_seconds("1天2小时30分钟10秒"), Ok(95410));
}

#[test]
fn rejects_invalid_duration_input() {
    assert!(parse_duration_seconds("").is_err());
    assert!(parse_duration_seconds("10").is_err());
    assert!(parse_duration_seconds("0s").is_err());
    assert!(parse_duration_seconds("1x2h").is_err());
}

#[test]
fn formats_combined_duration_suffixes() {
    assert_eq!(format_duration_seconds(93010), "1d1h50m10s");
    assert_eq!(format_duration_seconds(0), "0s");
}

#[test]
fn parses_human_readable_token_amounts() {
    assert_eq!(parse_token_amount("1024"), Ok(1024));
    assert_eq!(parse_token_amount("230K"), Ok(230_000));
    assert_eq!(parse_token_amount("1.5M"), Ok(1_500_000));
    assert_eq!(parse_token_amount("2B"), Ok(2_000_000_000));
}

#[test]
fn parses_optional_token_amounts() {
    assert_eq!(parse_optional_token_amount("输入 tokens", "64K"), Ok(Some(64_000)));
    assert_eq!(parse_optional_token_amount("输入 tokens", "   "), Ok(None));
}

#[test]
fn formats_token_amounts_for_editor() {
    assert_eq!(format_token_input(230_000), "230K");
    assert_eq!(format_token_input(1_000_000), "1M");
    assert_eq!(format_token_input(2_000_000_000), "2B");
    assert_eq!(format_token_input(1536), "1536");
}

#[test]
fn formats_tokens_for_human_and_raw_modes() {
    assert_eq!(format_tokens(TokenDisplayMode::Raw, 12345), "12345");
    assert_eq!(format_tokens(TokenDisplayMode::Human, 12345), "12K");
    assert_eq!(format_tokens(TokenDisplayMode::Human, 1234), "1.2K");
}

#[test]
fn formats_small_costs() {
    assert_eq!(format_usd(double(0.0)), "$0");
    assert_eq!(format_usd(double(0.0000123)), "$0.000012");
    assert_eq!(format_usd(double(0.12345)), "$0.1235");
}

#[test]
fn formats_cost_by_currency_mode() {
    let rate = Some(UsdCnyRate { rate: double(7.2), fetched_at: 0 });
    assert_eq!(format_cost(double(1.5), CurrencyDisplayMode::Usd, rate), "$1.50");
    assert_eq!(format_cost(double(1.5), CurrencyDisplayMode::Cny, rate), "¥10.80");
    assert_eq!(format_cost(double(1.5), CurrencyDisplayMode::Cny, None), "$1.50");
    assert_eq!(format_cost(double(0.0000123), CurrencyDisplayMode::Cny, rate), "¥0.000089");
}

#[test]
fn token_amounts_report_what_is_wrong() {
    assert_eq!(parse_token_amount(""), Err("不能为空".to_string()));
    assert_eq!(
        parse_token_amount("abc"),
        Err("请输入数字, 例如 1024, 64K, 1.5M, 2B".to_string())
    );
    assert_eq!(parse_token_amount("-1"), Err("必须是非负数字".to_string()));
    assert_eq!(
        parse_optional_token_amount("总 tokens", "x"),
        Err("总 tokens 请输入数字, 例如 1024, 64K, 1.5M, 2B".to_string())
    );
}

#[test]
fn token_inputs_round_trip() {
    for value in [
        0_i64,
        1,
        999,
        1000,
        1536,
        64_000,
        1_000_000,
        9_007_199_254_740_992,
        1 << 60,
        9_007_199_254_741_120_000,
    ] {
        assert_eq!(parse_token_amount(&format_token_input(value)), Ok(value));
    }
}

#[test]
fn durations_round_trip() {
    for value in [1_i64, 59, 60, 3600, 86400, 95410] {
        assert_eq!(parse_duration_seconds(&format_duration_seconds(value)), Ok(value));
    }
}

#[test]
fn doubles_agree_with_the_machine() {
    let values = [
        0.0, -0.0, 1.0, -1.5, 0.1, 0.2, 0.3, 1e-7, 123456.789, 1e15, 1e16, 1e22, 1e300, 5e-324,
        2.2250738585072014e-308, 1.7976931348623157e308, 500000.0, 1.0 / 3.0,
    ];
    for a in values {
        assert_eq!(double(a).to_bits(), a.to_bits());
        for decimals in [0_u32, 1, 2, 4, 6] {
            let text = format!("{:.*}", decimals as usize, a);
            assert_eq!(double(a).to_fixed(decimals), text);
        }
        for b in values {
            assert_eq!(double(a).plus(double(b)).to_bits(), (a + b).to_bits());
            assert_eq!(double(a).minus(double(b)).to_bits(), (a - b).to_bits());
            assert_eq!(double(a).times(double(b)).to_bits(), (a * b).to_bits());
            assert_eq!(double(a).is_below(double(b)), a < b);
            assert_eq!(double(a).is_at_most(double(b)), a <= b);
        }
        for d in [1_u64, 3, 1000, 10_000, 500_000] {
            assert_eq!(double(a).over(d).to_bits(), (a / d as f64).to_bits());
        }
    }
    assert_eq!(double(f64::INFINITY).to_fixed(2), "inf");
    assert_eq!(double(f64::NEG_INFINITY).to_fixed(2), "-inf");
    assert_eq!(double(f64::NAN).to_fixed(2), "NaN");
    assert_eq!(Double::from_i64(-9_007_199_254_740_993).to_bits(), (-9007199254740993_i64 as f64).to_bits());
    assert_eq!(Double::from_text("7.2").unwrap().to_bits(), 7.2_f64.to_bits());
    assert!(Double::from_text("x").is_none());
}

#[test]
fn costs_have_hints() {
    let rate = Some(UsdCnyRate { rate: double(7.1234), fetched_at: 0 });
    assert_eq!(
        cost_hover_text(CurrencyDisplayMode::Usd, rate),
        "汇率 1 USD = 7.1234 CNY, 点击切换为人民币显示"
    );
    assert_eq!(
        cost_hover_text(CurrencyDisplayMode::Cny, None),
        "尚未获取汇率, 暂时显示美元, 点击切换显示"
    );
    assert_eq!(
        estimated_cost_text("今日", None, CurrencyDisplayMode::Usd, None),
        "今日: 无价格缓存"
    );
    assert_eq!(
        estimated_cost_text("今日", Some(double(2.0)), CurrencyDisplayMode::Usd, None),
        "今日: $2.00"
    );
}

#[test]
fn display_modes_toggle() {
    let mut tokens = TokenDisplayMode::Human;
    tokens.toggle();
    assert_eq!(tokens, TokenDisplayMode::Raw);
    tokens.toggle();
    assert_eq!(tokens, TokenDisplayMode::Human);
    let mut currency = CurrencyDisplayMode::Cny;
    currency.toggle();
    assert_eq!(currency, CurrencyDisplayMode::Usd);
}
