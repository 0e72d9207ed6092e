use codex_switch::balance::{
    append_path_url, balance_query, common_balance_urls, detect_provider, parse_balance, parse_common_balance,
    provider_answer, BalanceCredentials, BalanceQuery, CommonBalanceUrlKind, PanelQuery, PanelStep,
};
use codex_switch::balance_alert::{
    balance_alert_label, evaluate_alert, format_balance, is_balance_low, is_due,
    refresh_interval_seconds, AlertStep,
};
use codex_switch::float64::Double;
use codex_switch::json;
use codex_switch::json::Json;
use codex_switch::models::{
    BalanceProvider, BalanceSnapshot, UpstreamBalanceAlertSettings, UpstreamKind,
};

fn double(x: f64) -> Double {
    Double::from_bits(x.to_bits())
}

fn amount(x: Option<Double>) -> Option<f64> {
    x.map(|x| f64::from_bits(x.to_bits()))
}

fn tree(text: &str) -> Json {
    json::parse(text.as_bytes()).unwrap()
}

fn empty_snapshot() -> BalanceSnapshot {
    BalanceSnapshot {
        upstream_id: String::new(),
        provider: String::new(),
        remaining: None,
        total: None,
        used: None,
        unit: None,
        is_valid: false,
        message: None,
        fetched_at: 0,
    }
}

#[test]
fn detects_balance_provider() {
    assert_eq!(
        detect_provider("https://api.deepseek.com/v1"),
        Some(BalanceProvider::DeepSeek)
    );
    assert_eq!(
        detect_provider("https://openrouter.ai/api/v1"),
        Some(BalanceProvider::OpenRouter)
    );
    assert_eq!(
        detect_provider("https://example.com/new-api/v1"),
        Some(BalanceProvider::NewApi)
    );
}

#[test]
fn provider_detection_ignores_case() {
    assert_eq!(detect_provider("HTTPS://API.StepFun.COM/v1"), Some(BalanceProvider::StepFun));
    assert_eq!(detect_provider("https://example.com"), None);
}

#[test]
fn parses_openrouter_balance() {
    let snapshot = parse_balance(
        "u1",
        BalanceProvider::OpenRouter,
        "USD",
        &tree(r#"{"data":{"total_credits":10.0,"total_usage":3.5}}"#),
    );
    assert_eq!(amount(snapshot.remaining), Some(6.5));
    assert_eq!(amount(snapshot.total), Some(10.0));
}

#[test]
fn parses_sub2api_usage_balance() {
    let snapshot = parse_common_balance(
        "u1",
        BalanceProvider::Sub2Api,
        &tree(
            r#"{
                "mode": "quota_limited",
                "isValid": true,
                "quota": {"limit": 10.0, "used": 3.0, "remaining": 7.0, "unit": "USD"}
            }"#,
        ),
    )
    .unwrap();
    assert_eq!(amount(snapshot.remaining), Some(7.0));
    assert_eq!(amount(snapshot.total), Some(10.0));
    assert_eq!(amount(snapshot.used), Some(3.0));
    assert_eq!(snapshot.unit.as_deref(), Some("USD"));
    assert!(snapshot.is_valid);
}

#[test]
fn parses_newapi_token_balance() {
    let snapshot = parse_common_balance(
        "u1",
        BalanceProvider::NewApi,
        &tree(r#"{"success": true, "data": {"remain_quota": 5000, "used_quota": 1200}}"#),
    )
    .unwrap();
    assert_eq!(amount(snapshot.remaining), Some(0.01));
    assert_eq!(amount(snapshot.used), Some(0.0024));
    assert_eq!(amount(snapshot.total), Some(0.0124));
    assert_eq!(snapshot.unit.as_deref(), Some("USD"));
}

#[test]
fn parses_newapi_user_self_balance() {
    let snapshot = parse_common_balance(
        "u1",
        BalanceProvider::NewApi,
        &tree(r#"{"success": true, "data": {"quota": 500000, "used_quota": 250000}}"#),
    )
    .unwrap();
    assert_eq!(amount(snapshot.remaining), Some(1.0));
    assert_eq!(amount(snapshot.used), Some(0.5));
    assert_eq!(amount(snapshot.total), Some(1.5));
    assert_eq!(snapshot.unit.as_deref(), Some("USD"));
}

#[test]
fn parses_sub2api_unrestricted_balance() {
    let snapshot = parse_common_balance(
        "u1",
        BalanceProvider::Sub2Api,
        &tree(
            r#"{
                "mode": "unrestricted",
                "isValid": true,
                "remaining": 2.5,
                "balance": 2.5,
                "unit": "USD"
            }"#,
        ),
    )
    .unwrap();
    assert_eq!(amount(snapshot.remaining), Some(2.5));
    assert_eq!(snapshot.unit.as_deref(), Some("USD"));
}

#[test]
fn parses_dashboard_credit_grants_balance() {
    let snapshot = parse_common_balance(
        "u1",
        BalanceProvider::Auto,
        &tree(r#"{"total_available": 6.25, "total_granted": 10.0, "total_used": 3.75}"#),
    )
    .unwrap();
    assert_eq!(amount(snapshot.remaining), Some(6.25));
    assert_eq!(amount(snapshot.total), Some(10.0));
    assert_eq!(amount(snapshot.used), Some(3.75));
    assert_eq!(snapshot.unit.as_deref(), Some("USD"));
}

#[test]
fn computed_rest_is_never_negative() {
    let snapshot = parse_common_balance(
        "u1",
        BalanceProvider::Sub2Api,
        &tree(r#"{"quota": {"limit": 3, "used": 5}}"#),
    )
    .unwrap();
    assert_eq!(amount(snapshot.remaining), Some(0.0));
    assert!(!snapshot.is_valid);
}

#[test]
fn providers_are_read_in_their_own_ways() {
    let deepseek = parse_balance(
        "u",
        BalanceProvider::DeepSeek,
        "CNY",
        &tree(r#"{"is_available":false,"balance_infos":[{"total_balance":"12.50"}]}"#),
    );
    assert_eq!(amount(deepseek.remaining), Some(12.5));
    assert!(!deepseek.is_valid);
    assert_eq!(deepseek.provider, "deepseek");
    let novita = parse_balance(
        "u",
        BalanceProvider::Novita,
        "USD",
        &tree(r#"{"availableBalance":"123456"}"#),
    );
    assert_eq!(amount(novita.remaining), Some(12.3456));
    let silicon = parse_balance(
        "u",
        BalanceProvider::SiliconFlowCn,
        "CNY",
        &tree(r#"{"data":{"balance":1}}"#),
    );
    assert_eq!(amount(silicon.remaining), Some(1.0));
    assert!(silicon.is_valid);
}

#[test]
fn failed_answers_carry_the_status() {
    let snapshot =
        provider_answer("u", BalanceProvider::DeepSeek, "CNY", 404, &tree(r#"{"a": 1}"#), 7);
    assert!(!snapshot.is_valid);
    assert_eq!(snapshot.message.as_deref(), Some(r#"HTTP 404 Not Found: {"a":1}"#));
    assert_eq!(snapshot.fetched_at, 7);
    let odd = provider_answer("u", BalanceProvider::DeepSeek, "CNY", 599, &Json::Null, 7);
    assert_eq!(odd.message.as_deref(), Some("HTTP 599 <unknown status code>: null"));
}

#[test]
fn panel_addresses_are_distinct() {
    let urls = common_balance_urls("https://relay.example.com/v1/", BalanceProvider::Auto);
    let texts: Vec<&str> = urls.iter().map(|u| u.url.as_str()).collect();
    assert_eq!(
        texts,
        vec![
            "https://relay.example.com/v1/usage",
            "https://relay.example.com/api/user/self"
        ]
    );
    assert_eq!(urls[1].kind, CommonBalanceUrlKind::NewApi);
    let urls = common_balance_urls("https://relay.example.com/x?k=1", BalanceProvider::Sub2Api);
    let texts: Vec<&str> = urls.iter().map(|u| u.url.as_str()).collect();
    assert_eq!(
        texts,
        vec!["https://relay.example.com/x/usage", "https://relay.example.com/v1/usage"]
    );
    assert!(common_balance_urls("no url", BalanceProvider::Auto).is_empty());
    assert_eq!(
        append_path_url("https://relay.example.com/中 文/", "/usage").as_deref(),
        Some("https://relay.example.com/%E4%B8%AD%20%E6%96%87/usage")
    );
    let long = format!("https://relay.example.com/{}", "中".repeat(100_000));
    let below = append_path_url(&long, "usage").unwrap();
    assert_eq!(below.len(), "https://relay.example.com/".len() + 900_000 + "/usage".len());
}

#[test]
fn credentials_are_checked() {
    let credentials = BalanceCredentials {
        api_key: "k".to_string(),
        newapi_user_key: Some("uk".to_string()),
        newapi_user_id: None,
    };
    assert_eq!(
        credentials.common_auth(BalanceProvider::NewApi).unwrap_err(),
        "missing new-api user id"
    );
    let auth = credentials.common_auth(BalanceProvider::Auto).unwrap();
    assert_eq!(auth.headers_for(CommonBalanceUrlKind::Generic).unwrap().bearer, "k");
    assert!(auth.headers_for(CommonBalanceUrlKind::NewApi).is_none());
    let none = BalanceCredentials {
        api_key: "k".to_string(),
        newapi_user_key: None,
        newapi_user_id: None,
    };
    assert_eq!(
        none.common_auth(BalanceProvider::NewApi).unwrap_err(),
        "missing new-api user key"
    );
}

#[test]
fn queries_are_planned() {
    let relay = UpstreamKind::RelayApiKey;
    assert_eq!(
        balance_query(relay, BalanceProvider::Auto, "https://API.novita.ai"),
        BalanceQuery::Provider(BalanceProvider::Novita)
    );
    assert_eq!(
        balance_query(relay, BalanceProvider::Auto, "https://example.com"),
        BalanceQuery::Panel(BalanceProvider::Auto)
    );
    assert_eq!(
        balance_query(relay, BalanceProvider::Unsupported, ""),
        BalanceQuery::Unsupported
    );
    assert_eq!(
        balance_query(UpstreamKind::CodexOauth, BalanceProvider::Auto, ""),
        BalanceQuery::NotApiKey
    );
}

#[test]
fn panels_are_asked_one_address_after_the_other() {
    let credentials = BalanceCredentials {
        api_key: "k".to_string(),
        newapi_user_key: None,
        newapi_user_id: None,
    };
    let auth = credentials.common_auth(BalanceProvider::Auto).unwrap();
    let mut query = PanelQuery::new("https://r.example.com/x", BalanceProvider::Auto);
    match query.step(&auth, "u", 1) {
        PanelStep::Request { url, headers } => {
            assert_eq!(url, "https://r.example.com/x/usage");
            assert_eq!(headers.bearer, "k");
        }
        PanelStep::Done(_) => panic!("an address is left"),
    }
    assert!(query.answered("u", 404, "gone", 1).is_none());
    assert_eq!(
        query.last_error.as_deref(),
        Some("https://r.example.com/x/usage: HTTP 404 Not Found")
    );
    assert!(matches!(query.step(&auth, "u", 1), PanelStep::Request { .. }));
    assert!(query.answered("u", 200, r#"{"success":false,"message":"no"}"#, 1).is_none());
    assert_eq!(query.last_error.as_deref(), Some("https://r.example.com/v1/usage: no"));
    match query.step(&auth, "u", 1) {
        PanelStep::Done(snapshot) => {
            assert_eq!(
                snapshot.message.as_deref(),
                Some("https://r.example.com/api/user/self: missing new-api user key or user id")
            );
        }
        PanelStep::Request { .. } => panic!("no credentials are left"),
    }
}

#[test]
fn panels_stop_at_a_balance() {
    let credentials = BalanceCredentials {
        api_key: "k".to_string(),
        newapi_user_key: None,
        newapi_user_id: None,
    };
    let auth = credentials.common_auth(BalanceProvider::Sub2Api).unwrap();
    let mut query = PanelQuery::new("https://r.example.com", BalanceProvider::Sub2Api);
    assert!(matches!(query.step(&auth, "u", 1), PanelStep::Request { .. }));
    query.request_failed("timed out");
    assert_eq!(query.last_error.as_deref(), Some("https://r.example.com/usage: timed out"));
    assert!(matches!(query.step(&auth, "u", 1), PanelStep::Request { .. }));
    let found = query.answered("u", 200, r#"{"balance": "3.25"}"#, 9).unwrap();
    assert_eq!(amount(found.remaining), Some(3.25));
    assert_eq!(found.fetched_at, 9);
    let mut other = PanelQuery::new("https://r.example.com", BalanceProvider::Sub2Api);
    assert!(matches!(other.step(&auth, "u", 1), PanelStep::Request { .. }));
    let failed = other.answered("u", 500, "down", 2).unwrap();
    assert_eq!(failed.message.as_deref(), Some("HTTP 500 Internal Server Error: down"));
    assert!(matches!(other.step(&auth, "u", 1), PanelStep::Request { .. }));
    assert!(other.answered("u", 200, "[1]", 2).is_none());
    assert_eq!(
        other.last_error.as_deref(),
        Some("https://r.example.com/usage: unsupported balance response [1]")
    );
}

#[test]
fn low_balance_uses_remaining_even_when_provider_marks_snapshot_invalid() {
    let snapshot = BalanceSnapshot {
        remaining: Some(double(0.0)),
        is_valid: false,
        ..empty_snapshot()
    };
    assert!(is_balance_low(&snapshot, double(5.0)));
}

#[test]
fn alert_interval_controls_due_checks() {
    let mut settings = UpstreamBalanceAlertSettings::new("upstream".to_string());
    settings.interval_seconds = 600;
    settings.last_checked_at = Some(1000);
    assert!(!is_due(&settings, 1599, false));
    assert!(is_due(&settings, 1600, false));
}

#[test]
fn active_upstream_uses_the_active_interval() {
    let mut settings = UpstreamBalanceAlertSettings::new("upstream".to_string());
    settings.interval_seconds = 1800;
    settings.active_interval_seconds = 120;
    settings.last_checked_at = Some(1000);

    assert!(!is_due(&settings, 1119, true));
    assert!(is_due(&settings, 1120, true));
    assert!(!is_due(&settings, 1120, false));
    assert!(is_due(&settings, 2800, false));
}

#[test]
fn refresh_interval_defaults_to_the_upstream_setting() {
    let mut settings = UpstreamBalanceAlertSettings::new("upstream".to_string());
    settings.interval_seconds = 900;
    settings.active_interval_seconds = 5;

    assert_eq!(refresh_interval_seconds(&settings, false), 900);
    assert_eq!(refresh_interval_seconds(&settings, true), 5);
}

#[test]
fn non_positive_refresh_interval_is_clamped_to_one_second() {
    let mut settings = UpstreamBalanceAlertSettings::new("upstream".to_string());
    settings.interval_seconds = 0;
    settings.active_interval_seconds = -10;

    assert_eq!(refresh_interval_seconds(&settings, false), 1);
    assert_eq!(refresh_interval_seconds(&settings, true), 1);
}

#[test]
fn alerts_are_sent_once() {
    let mut settings = UpstreamBalanceAlertSettings::new("u".to_string());
    settings.enabled = true;
    settings.alert_enabled = true;
    let low = BalanceSnapshot {
        remaining: Some(double(4.5)),
        unit: Some("USD".to_string()),
        ..empty_snapshot()
    };
    match evaluate_alert("relay", &settings, &low) {
        AlertStep::Notify { body } => {
            assert_eq!(body, "上游 relay 当前余额为 4.5000 USD, 已低于提醒阈值 5.0000");
        }
        AlertStep::Settled(_) => panic!("an alert is due"),
    }
    settings.alert_active = true;
    assert!(matches!(evaluate_alert("relay", &settings, &low), AlertStep::Settled(true)));
    let high = BalanceSnapshot { remaining: Some(double(9.0)), ..empty_snapshot() };
    assert!(matches!(evaluate_alert("relay", &settings, &high), AlertStep::Settled(false)));
    assert_eq!(format_balance(&high), "9.0000");
    assert_eq!(format_balance(&empty_snapshot()), "未知");
}

#[test]
fn alert_settings_have_labels() {
    assert_eq!(balance_alert_label(None).0, "关闭");
    let mut settings = UpstreamBalanceAlertSettings::new("u".to_string());
    settings.enabled = true;
    assert_eq!(balance_alert_label(Some(&settings)).0, "刷新 / 1800 秒");
    settings.alert_enabled = true;
    settings.alert_active = true;
    let (label, hint) = balance_alert_label(Some(&settings));
    assert_eq!(label, "不足 <= 5.0000");
    assert_eq!(hint.as_deref(), Some("每 1800 秒检查一次"));
}
