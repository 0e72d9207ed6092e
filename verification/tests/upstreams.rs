use codex_switch::http::{display_version, effective_proxy, user_agent, validate_proxy_url};
use codex_switch::json;
use codex_switch::json::Json;
use codex_switch::model_capabilities::ModelCapabilityCache;
use codex_switch::models::{BalanceProvider, ScheduleMode, Upstream, UpstreamKind, WireApi};
use codex_switch::upstream_detection::{detect_upstream, DetectedKind};
use codex_switch::upstream_transfer::{
    check_version, exported_upstream, importable_upstream, UpstreamExport,
    UpstreamPricingScriptExport,
};

fn tree(text: &str) -> Json {
    json::parse(text.as_bytes()).unwrap()
}

#[test]
fn user_agent_follows_build_version() {
    for injected in ["", "  ", "v1.2.3", " v1.2.3\n"] {
        assert_eq!(
            user_agent(injected),
            format!("codex-switch/{}", display_version(injected))
        );
    }
}

#[test]
fn proxies_are_checked() {
    assert_eq!(validate_proxy_url("  "), Ok(()));
    assert_eq!(validate_proxy_url(" http://127.0.0.1:7890 "), Ok(()));
    assert_eq!(validate_proxy_url("socks5://localhost:1080"), Ok(()));
    assert_eq!(
        validate_proxy_url(" http://[bad "),
        Err("invalid upstream proxy URL: http://[bad".to_string())
    );
    assert_eq!(effective_proxy(&Some(" p ".to_string())).as_deref(), Some("p"));
    assert_eq!(effective_proxy(&Some("  ".to_string())), None);
    assert_eq!(effective_proxy(&None), None);
}

#[test]
fn kinds_and_protocols_have_names() {
    assert_eq!(UpstreamKind::from_str("codex_oauth"), UpstreamKind::CodexOauth);
    assert_eq!(UpstreamKind::from_str("peer_node"), UpstreamKind::RelayApiKey);
    assert_eq!(UpstreamKind::named("peer_node"), Some(UpstreamKind::PeerNode));
    assert_eq!(UpstreamKind::named("other"), None);
    assert_eq!(WireApi::from_str("chat"), WireApi::ChatCompletions);
    assert_eq!(WireApi::from_str("anthropic_messages"), WireApi::Responses);
    assert_eq!(WireApi::named("anthropic_messages"), Some(WireApi::AnthropicMessages));
    assert_eq!(WireApi::named("chat"), None);
    assert_eq!(BalanceProvider::from_str("one-api"), BalanceProvider::NewApi);
    assert_eq!(BalanceProvider::from_str("zhipu"), BalanceProvider::Auto);
    assert_eq!(BalanceProvider::named("zhipu"), Some(BalanceProvider::Zhipu));
    assert_eq!(BalanceProvider::named("one-api"), None);
    assert_eq!(ScheduleMode::from_str("polling"), ScheduleMode::RoundRobin);
    assert_eq!(ScheduleMode::from_str("model_mapping"), ScheduleMode::Random);
    assert_eq!(ScheduleMode::named("model_mapping"), Some(ScheduleMode::ModelMapping));
    assert_eq!(ScheduleMode::named("fixed"), Some(ScheduleMode::Fixed));
}

#[test]
fn space_around_a_proxy_says_nothing() {
    for url in ["", "http://127.0.0.1:7890", "http://[bad"] {
        assert_eq!(validate_proxy_url(&format!(" \t{url}\n ")), validate_proxy_url(url));
    }
}

#[test]
fn detections_hang_together() {
    for url in [
        "https://api.anthropic.com",
        "https://open.bigmodel.cn/api/v1",
        "https://open.bigmodel.cn/api/paas/v4",
        "https://opencode.ai/zen/v1",
        "https://api.deepseek.com",
        "https://relay.example.com/v1",
        "",
    ] {
        let detected = detect_upstream(url);
        let slugs = detected.kind == DetectedKind::ZhipuApiV1;
        assert_eq!(detected.envelope_errors, slugs);
        assert_eq!(detected.models_container, if slugs { "models" } else { "data" });
        assert_eq!(detected.models_id_field, if slugs { "slug" } else { "id" });
        assert_eq!(
            detected.suggestion.filter_chat_server_tools == Some(true),
            detected.kind == DetectedKind::OpenCode
        );
        assert_eq!(
            detected.suggestion.wire_api == Some(WireApi::AnthropicMessages),
            detected.kind == DetectedKind::Anthropic
        );
        assert_eq!(
            detected.suggestion.wire_api.is_none(),
            detected.kind == DetectedKind::Unknown
        );
    }
}

#[test]
fn session_cache_round_trips() {
    let mut cache = ModelCapabilityCache::new();
    assert_eq!(cache.get("upstream", "deepseek-v4-flash"), None);
    cache.extend("upstream", vec![("deepseek-v4-flash".to_string(), false)]);
    assert_eq!(cache.get("upstream", "deepseek-v4-flash"), Some(false));
    assert_eq!(cache.get("other", "deepseek-v4-flash"), None);
}

#[test]
fn later_capabilities_replace_earlier_ones() {
    let mut cache = ModelCapabilityCache::new();
    cache.extend("u", vec![("m".to_string(), false), ("n".to_string(), true)]);
    cache.extend("u", vec![("m".to_string(), true)]);
    assert_eq!(cache.get("u", "m"), Some(true));
    assert_eq!(cache.get("u", "n"), Some(true));
}

#[test]
fn detects_zhipu_paths() {
    let detected = detect_upstream("https://open.bigmodel.cn/api/v1");
    assert_eq!(detected.kind, DetectedKind::ZhipuApiV1);
    assert_eq!(detected.models_container, "models");
    assert_eq!(detected.models_id_field, "slug");

    let detected = detect_upstream("https://open.bigmodel.cn/api");
    assert_eq!(detected.kind, DetectedKind::ZhipuApiV1);

    let detected = detect_upstream("https://api.z.ai/api/v1");
    assert_eq!(detected.kind, DetectedKind::ZhipuApiV1);

    let detected = detect_upstream("https://open.bigmodel.cn/api/paas/v4");
    assert_eq!(detected.kind, DetectedKind::ZhipuPaas);
    assert_eq!(detected.models_id_field, "id");

    let detected = detect_upstream("https://open.bigmodel.cn");
    assert_eq!(detected.kind, DetectedKind::ZhipuApiV1);
    assert_eq!(detected.models_id_field, "slug");
}

#[test]
fn detects_envelope_error() {
    let detected = detect_upstream("https://open.bigmodel.cn/api/v1");
    let message = detected.models_error(
        true,
        &tree(r#"{"code":401,"msg":"令牌已过期或验证不正确","success":false}"#),
    );
    assert_eq!(message.as_deref(), Some("令牌已过期或验证不正确"));
    assert!(detected.models_error(true, &tree(r#"{"models":[]}"#)).is_none());
}

#[test]
fn suggests_zhipu_base_url_when_path_missing() {
    let detected = detect_upstream("https://open.bigmodel.cn");
    assert_eq!(
        detected.base_url_hint("https://open.bigmodel.cn"),
        Some("https://open.bigmodel.cn/api/v1")
    );
    assert_eq!(
        detect_upstream("https://api.z.ai").base_url_hint("https://api.z.ai"),
        Some("https://api.z.ai/api/v1")
    );
    assert!(detect_upstream("https://open.bigmodel.cn/api/v1")
        .base_url_hint("https://open.bigmodel.cn/api/v1")
        .is_none());
    assert!(detect_upstream("https://open.bigmodel.cn/api/paas/v4")
        .base_url_hint("https://open.bigmodel.cn/api/paas/v4")
        .is_none());
}

#[test]
fn detects_opencode() {
    let detected = detect_upstream("https://opencode.ai/zen/go/v1");
    assert_eq!(detected.kind, DetectedKind::OpenCode);
    assert_eq!(detected.suggestion.wire_api, Some(WireApi::ChatCompletions));
    assert_eq!(detected.suggestion.filter_chat_server_tools, Some(true));
    assert_eq!(detected.models_id_field, "id");

    let detected = detect_upstream("https://opencode.ai/zen/v1");
    assert_eq!(detected.kind, DetectedKind::OpenCode);
}

#[test]
fn unknown_url_keeps_openai_shape() {
    let detected = detect_upstream("https://relay.example.com/v1");
    assert_eq!(detected.kind, DetectedKind::Unknown);
    assert_eq!(detected.models_id_field, "id");
    assert!(detected.suggestion.wire_api.is_none());
}

#[test]
fn suggestions_are_applied_once() {
    let mut upstream = Upstream::new_relay(
        "a".to_string(),
        "https://api.anthropic.com".to_string(),
        WireApi::Responses,
        true,
        BalanceProvider::Auto,
    );
    let suggestion = detect_upstream("https://api.anthropic.com").suggestion;
    assert_eq!(
        suggestion.apply_to(&mut upstream),
        vec!["Wire API", "API Key 认证", "支持 compact"]
    );
    assert_eq!(upstream.wire_api, WireApi::AnthropicMessages);
    assert!(!upstream.supports_compact);
    assert!(suggestion.apply_to(&mut upstream).is_empty());
    assert_eq!(detect_upstream("").kind, DetectedKind::Unknown);
    assert_eq!(
        detect_upstream(" HTTPS://API.DeepSeek.com ").kind.label(),
        "OpenAI 兼容"
    );
    let failed = detect_upstream("https://x.example").models_error(
        false,
        &tree(r#"{"error":{"message":"bad key"},"msg":"other"}"#),
    );
    assert_eq!(failed.as_deref(), Some("bad key"));
}

#[test]
fn exports_leave_identity_at_home() {
    let value = tree(r#"{"id":"1","name":"n","created_at":"x","updated_at":"y"}"#);
    assert_eq!(json::to_text(&exported_upstream(value)), r#"{"name":"n"}"#);
    let value = tree(r#"{"name":"n"}"#);
    assert_eq!(
        json::to_text(&importable_upstream(value)),
        r#"{"created_at":"1970-01-01T00:00:00Z","id":"","name":"n","updated_at":"1970-01-01T00:00:00Z"}"#
    );
    let value = tree(r#"{"id":"1","name":"n","created_at":"x","weight":3}"#);
    assert_eq!(
        json::to_text(&importable_upstream(exported_upstream(value))),
        r#"{"created_at":"1970-01-01T00:00:00Z","id":"","name":"n","updated_at":"1970-01-01T00:00:00Z","weight":3}"#
    );
    assert_eq!(check_version(UpstreamExport::new(vec![]).version), Ok(()));
    assert_eq!(
        check_version(2),
        Err("导出格式版本过高: v2, 当前支持 v1".to_string())
    );
    assert!(UpstreamPricingScriptExport::from_saved(false, "").is_none());
    assert!(UpstreamPricingScriptExport::from_saved(true, "").is_some());
    assert_eq!(UpstreamPricingScriptExport::from_saved(false, "x").unwrap().source, "x");
}
