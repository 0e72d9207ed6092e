use codex_switch::cache_keepalive::body::{
    keepalive_body, model_supports_extended_retention, normalized_keepalive_usage,
};
use codex_switch::cache_keepalive::key::{session_key, short_hash};
use codex_switch::cache_keepalive::runtime::{
    action_after_keepalive, is_talkative, keepalive_action, keepalive_answer, keepalive_endpoint,
    keepalive_log, CacheKeepaliveRuntime, DisableReason, KeepaliveAction, PriceVerdict, RegisterOutcome,
    DISABLED_SESSION_RETENTION,
};
use codex_switch::cache_keepalive::session::{
    CacheKeepaliveRegistration, CacheKeepaliveSessionSnapshot,
};
use codex_switch::cache_keepalive::view::{
    active_connections_tab_text, cache_keepalive_tab_text, compact_text, format_body_bytes,
    format_next_keepalive, format_seconds, selected_session, session_tab_title, short_key,
    sync_selected,
};
use codex_switch::json;
use codex_switch::models::{
    BalanceProvider, CacheKeepaliveMode, TokenUsage, Upstream, UpstreamCacheKeepaliveSettings,
    UpstreamKind, WireApi,
};

const SECOND: u128 = 1_000_000_000;

fn registration_body(model: &str, session_id: &str) -> Vec<u8> {
    format!(r#"{{"input":"hello","model":"{model}","prompt_cache_key":"{session_id}"}}"#)
        .into_bytes()
}

fn registration(
    upstream: &Upstream,
    model: &str,
    session_id: &str,
    cached_tokens: i64,
) -> CacheKeepaliveRegistration {
    CacheKeepaliveRegistration {
        upstream: upstream.clone(),
        endpoint: "/responses".to_string(),
        model: Some(model.to_string()),
        body: registration_body(model, session_id),
        usage: TokenUsage {
            input_tokens: cached_tokens,
            cache_read_tokens: cached_tokens,
            total_tokens: cached_tokens,
            ..Default::default()
        },
    }
}

fn upstream(id: &str, name: &str) -> Upstream {
    let mut upstream = Upstream::new_relay(
        name.to_string(),
        "http://127.0.0.1".to_string(),
        WireApi::Responses,
        true,
        BalanceProvider::Unsupported,
    );
    upstream.id = id.to_string();
    upstream
}

fn enabled(upstream: &Upstream) -> Option<UpstreamCacheKeepaliveSettings> {
    let mut settings = UpstreamCacheKeepaliveSettings::new(upstream.id.clone());
    settings.enabled = true;
    Some(settings)
}

fn keepalive_body_case() {
    let settings = UpstreamCacheKeepaliveSettings {
        prefer_extended_retention: true,
        ..UpstreamCacheKeepaliveSettings::new("upstream".to_string())
    };
    let body = keepalive_body(
        br#"{"model":"gpt-5","input":"hello","stream":true,"store":true}"#,
        WireApi::Responses,
        &settings,
    )
    .unwrap();
    let value: serde_json::Value = serde_json::from_slice(&body).unwrap();

    assert_eq!(value["stream"], false);
    assert_eq!(value["store"], false);
    assert_eq!(value["max_output_tokens"], 1);
    assert_eq!(value["prompt_cache_retention"], "24h");
}

fn session_key_case() {
    let body = br#"{"model":"gpt-test","prompt_cache_key":"stable","input":"hello"}"#;
    let first = session_key("a", "gpt-test", "/responses", body).unwrap();
    let second = session_key("b", "gpt-test", "/responses", body).unwrap();

    assert_ne!(first, second);
}

fn snapshots_case() {
    let mut runtime = CacheKeepaliveRuntime::new();
    let upstream_b = upstream("b", "upstream-b");
    let upstream_a = upstream("a", "upstream-a");

    let now = 5 * SECOND;
    runtime.register(
        registration(&upstream_b, "model-b", "session-b", 4096),
        &enabled(&upstream_b),
        now,
    );
    runtime.register(
        registration(&upstream_a, "model-a", "session-a", 2048),
        &enabled(&upstream_a),
        now,
    );

    let snapshots = runtime.snapshots(now);

    assert_eq!(snapshots.len(), 2);
    assert_eq!(snapshots[0].upstream_name, "upstream-a");
    assert_eq!(snapshots[0].model, "model-a");
    assert_eq!(snapshots[0].cached_tokens, 2048);
    assert_eq!(snapshots[0].body_bytes, registration_body("model-a", "session-a").len());
    assert!(snapshots[0].next_keepalive_seconds > 0);
}

fn disabled_case() {
    let mut runtime = CacheKeepaliveRuntime::new();
    let upstream = upstream("a", "upstream-a");
    runtime.register(registration(&upstream, "model-a", "session-a", 2048), &enabled(&upstream), 0);
    let key = runtime.snapshots(0)[0].key.clone();

    runtime.disable_session(&key, "cache miss", 1);
    let snapshots = runtime.snapshots(2);

    assert_eq!(snapshots[0].disabled_reason.as_deref(), Some("cache miss"));
}

fn too_many_tokens_case() {
    let mut runtime = CacheKeepaliveRuntime::new();
    let upstream = upstream("a", "upstream-a");
    let mut settings = UpstreamCacheKeepaliveSettings::new(upstream.id.clone());
    settings.enabled = true;
    settings.max_cacheable_tokens = 4096;

    runtime.register(
        registration(&upstream, "model-a", "session-a", 8192),
        &Some(settings),
        0,
    );

    assert!(runtime.snapshots(0).is_empty());
}

#[test]
fn cache_keepalive_keepalive_body_limits_responses_output() {
    keepalive_body_case();
}

#[test]
fn tests_keepalive_body_limits_responses_output() {
    keepalive_body_case();
}

#[test]
fn cache_keepalive_session_key_uses_upstream_and_cache_key() {
    session_key_case();
}

#[test]
fn tests_session_key_uses_upstream_and_cache_key() {
    session_key_case();
}

#[test]
fn cache_keepalive_snapshots_are_sorted_and_include_runtime_fields() {
    snapshots_case();
}

#[test]
fn tests_snapshots_are_sorted_and_include_runtime_fields() {
    snapshots_case();
}

#[test]
fn cache_keepalive_disabled_snapshot_keeps_reason() {
    disabled_case();
}

#[test]
fn tests_disabled_snapshot_keeps_reason() {
    disabled_case();
}

#[test]
fn cache_keepalive_register_skips_sessions_above_max_cacheable_tokens() {
    too_many_tokens_case();
}

#[test]
fn tests_register_skips_sessions_above_max_cacheable_tokens() {
    too_many_tokens_case();
}

#[test]
fn disable_upstream_sessions_marks_matching_sessions() {
    let mut runtime = CacheKeepaliveRuntime::new();
    let upstream = upstream("a", "upstream-a");
    runtime.register(registration(&upstream, "model-a", "session-a", 2048), &enabled(&upstream), 0);

    let disabled = runtime.disable_upstream_sessions(&upstream.id, "settings disabled", 1);
    let snapshots = runtime.snapshots(1);

    assert_eq!(disabled, 1);
    assert_eq!(snapshots[0].disabled_reason.as_deref(), Some("settings disabled"));
}

#[test]
fn prune_disabled_sessions_removes_expired_sessions() {
    let mut runtime = CacheKeepaliveRuntime::new();
    let upstream = upstream("a", "upstream-a");
    runtime.register(registration(&upstream, "model-a", "session-a", 2048), &enabled(&upstream), 0);
    let key = runtime.snapshots(0)[0].key.clone();
    runtime.disable_session(&key, "cache miss", 10);

    assert_eq!(runtime.prune_disabled_sessions(9 + DISABLED_SESSION_RETENTION), 0);
    assert_eq!(runtime.prune_disabled_sessions(10 + DISABLED_SESSION_RETENTION), 1);

    assert!(runtime.snapshots(0).is_empty());
}

#[test]
fn registrations_are_refused_for_a_reason() {
    let mut runtime = CacheKeepaliveRuntime::new();
    let a = upstream("a", "upstream-a");
    let mut oauth = upstream("o", "oauth");
    oauth.kind = UpstreamKind::CodexOauth;
    assert_eq!(
        runtime.register(registration(&oauth, "m", "s", 2048), &enabled(&oauth), 0),
        RegisterOutcome::NotRelay
    );
    assert_eq!(
        runtime.register(registration(&a, "  ", "s", 2048), &enabled(&a), 0),
        RegisterOutcome::MissingModel
    );
    assert_eq!(
        runtime.register(registration(&a, "m", "s", 2048), &None, 0),
        RegisterOutcome::SettingsUnavailable
    );
    let off = Some(UpstreamCacheKeepaliveSettings::new("a".to_string()));
    assert_eq!(
        runtime.register(registration(&a, "m", "s", 2048), &off, 0),
        RegisterOutcome::SettingsInactive
    );
    assert_eq!(
        runtime.register(registration(&a, "m", "s", 1023), &enabled(&a), 0),
        RegisterOutcome::NotEnoughCachedTokens
    );
    assert_eq!(
        runtime.register(registration(&a, "m", "s", 300_000), &enabled(&a), 0),
        RegisterOutcome::TooManyCachedTokens
    );
    let mut nameless = registration(&a, "m", "s", 2048);
    nameless.body = br#"{"model":"m"}"#.to_vec();
    assert_eq!(
        runtime.register(nameless, &enabled(&a), 0),
        RegisterOutcome::MissingSessionKey
    );
    assert_eq!(
        runtime.register(registration(&a, "m", "s", 2048), &enabled(&a), 0),
        RegisterOutcome::Registered
    );
}

#[test]
fn the_oldest_sessions_make_room() {
    let mut runtime = CacheKeepaliveRuntime::new();
    let a = upstream("a", "upstream-a");
    let mut settings = enabled(&a).unwrap();
    settings.max_active_sessions = 2;
    let settings = Some(settings);
    for (i, session) in ["one", "two", "three"].iter().enumerate() {
        runtime.register(registration(&a, session, session, 2048), &settings, i as u128 * SECOND);
    }
    let models: Vec<String> =
        runtime.snapshots(10 * SECOND).into_iter().map(|s| s.model).collect();
    assert_eq!(models, vec!["three".to_string(), "two".to_string()]);
}

#[test]
fn keepalives_become_due_and_are_put_off() {
    let mut runtime = CacheKeepaliveRuntime::new();
    let a = upstream("a", "upstream-a");
    let settings = enabled(&a);
    runtime.register(registration(&a, "m", "s", 2048), &settings, 0);
    let settings = settings.unwrap();
    assert!(runtime.due_sessions(239 * SECOND).is_empty());
    let due = runtime.due_sessions(240 * SECOND);
    assert_eq!(due.len(), 1);
    let session = &due[0];
    assert_eq!(keepalive_endpoint(session), "/responses");
    let now = 240 * SECOND;
    assert_eq!(
        keepalive_action(session, &settings, now, PriceVerdict::Missing),
        KeepaliveAction::Disable(DisableReason::MissingModelPrice)
    );
    assert_eq!(
        keepalive_action(session, &settings, now, PriceVerdict::Worthwhile(false)),
        KeepaliveAction::Disable(DisableReason::SmartCostRejected)
    );
    assert_eq!(
        keepalive_action(session, &settings, now, PriceVerdict::Worthwhile(true)),
        KeepaliveAction::Send
    );
    let mut always = settings.clone();
    always.mode = CacheKeepaliveMode::Always;
    assert_eq!(
        keepalive_action(session, &always, now, PriceVerdict::Missing),
        KeepaliveAction::ScheduleNext(None)
    );
    assert_eq!(
        keepalive_action(session, &settings, 1801 * SECOND, PriceVerdict::Missing),
        KeepaliveAction::Disable(DisableReason::MaxIdleExceeded)
    );
    let usage = TokenUsage { cache_read_tokens: 2000, ..Default::default() };
    let action = action_after_keepalive(&settings, Some(usage));
    assert_eq!(action, KeepaliveAction::ScheduleNext(Some(2000)));
    assert!(runtime.apply_action(&session.key, &settings, action, now));
    let snapshot = &runtime.snapshots(now)[0];
    assert_eq!(snapshot.keepalive_count, 1);
    assert_eq!(snapshot.cached_tokens, 2000);
    assert_eq!(snapshot.next_keepalive_seconds, 240);
    assert_eq!(
        action_after_keepalive(&settings, Some(TokenUsage::default())),
        KeepaliveAction::Disable(DisableReason::CacheMiss)
    );
    let failed = action_after_keepalive(&settings, None);
    assert_eq!(failed, KeepaliveAction::Disable(DisableReason::RequestFailed));
    assert!(runtime.apply_action(&session.key, &settings, failed, now));
    assert!(!runtime.apply_action(&session.key, &settings, failed, now));
    assert!(runtime.due_sessions(100_000 * SECOND).is_empty());
    assert!(runtime.remove_session(&session.key));
    assert!(!runtime.remove_session(&session.key));
    let log = keepalive_log(session, Err("down".to_string()), 12);
    assert_eq!(log.status, 502);
    assert_eq!(log.error.as_deref(), Some("down"));
    assert_eq!(log.endpoint, "/internal/cache_keepalive");
}

#[test]
fn bodies_keep_the_prompt() {
    let settings = UpstreamCacheKeepaliveSettings::new("u".to_string());
    let body = keepalive_body(
        br#"{"messages":[{"role":"user","content":"hi"}],"temperature":0.7,"reasoning_effort":"high"}"#,
        WireApi::ChatCompletions,
        &settings,
    )
    .unwrap();
    let value: serde_json::Value = serde_json::from_slice(&body).unwrap();
    assert_eq!(value["messages"][0]["content"], "hi");
    assert_eq!(value["temperature"], 0.7);
    assert_eq!(value["max_tokens"], 1);
    assert_eq!(value["reasoning_effort"], "minimal");
    assert_eq!(
        keepalive_body(b"[1]", WireApi::Responses, &settings).unwrap_err(),
        "request body is not a json object"
    );
    assert!(keepalive_body(b"{", WireApi::Responses, &settings).is_err());
    let body = keepalive_body(
        br#"{"reasoning":{"effort":"high"}}"#,
        WireApi::Responses,
        &settings,
    )
    .unwrap();
    assert_eq!(
        String::from_utf8(body).unwrap(),
        r#"{"max_output_tokens":1,"reasoning":{"effort":"minimal"},"store":false,"stream":false}"#
    );
}

#[test]
fn session_keys_depend_on_the_prefix() {
    let plain = session_key("u", "m", "/e", br#"{"session_id":"s"}"#).unwrap();
    let nested = session_key("u", "m", "/e", br#"{"meta":{"session_id":"s"}}"#).unwrap();
    assert_eq!(plain, nested);
    let tools = session_key("u", "m", "/e", br#"{"session_id":"s","tools":[]}"#).unwrap();
    assert_ne!(plain, tools);
    let input = session_key("u", "m", "/e", br#"{"session_id":"s","input":"x"}"#).unwrap();
    assert_eq!(plain, input);
    assert_eq!(session_key("u", "m", "/e", b"nothing"), None);
    assert_eq!(plain.len(), 64);
    assert_eq!(short_hash(&plain), plain[..12]);
    // The digest of the bytes "ums{}".
    assert_eq!(
        session_key("u", "m", "", br#"{"session_id":"s"}"#).unwrap(),
        {
            let digest = <sha2::Sha256 as sha2::Digest>::digest(b"ums{}");
            format!("{digest:x}")
        }
    );
}

#[test]
fn retention_is_known_for_some_models() {
    assert!(model_supports_extended_retention(" gpt-5-mini "));
    assert!(model_supports_extended_retention("openai/gpt-4.1"));
    assert!(model_supports_extended_retention("openai/gpt-5"));
    assert!(!model_supports_extended_retention("gpt-4.1-mini"));
}

#[test]
fn json_trees_are_read_and_written() {
    let tree = json::parse(br#"{"b":[1,2.5,null,true],"a":"x"}"#).unwrap();
    assert_eq!(json::to_text(&tree), r#"{"a":"x","b":[1,2.5,null,true]}"#);
    assert_eq!(json::to_text(&tree.copy()), json::to_text(&tree));
    assert_eq!(tree.get_str("a").unwrap(), "x");
    assert!(tree.get("c").is_none());
    assert!(json::parse(b"{").is_err());
}

fn shown_session(upstream_name: &str, model: &str) -> CacheKeepaliveSessionSnapshot {
    CacheKeepaliveSessionSnapshot {
        key: "0123456789abcdef0123456789abcdef".to_string(),
        upstream_id: "upstream-id".to_string(),
        upstream_name: upstream_name.to_string(),
        endpoint: "/responses".to_string(),
        model: model.to_string(),
        wire_api: WireApi::Responses,
        cached_tokens: 2048,
        keepalive_count: 2,
        last_user_request_elapsed_seconds: 30,
        last_activity_elapsed_seconds: 20,
        next_keepalive_seconds: 60,
        disabled_reason: None,
        body_bytes: 4096,
    }
}

#[test]
fn formats_seconds_for_common_ranges() {
    assert_eq!(format_seconds(12), "12s");
    assert_eq!(format_seconds(125), "2m 5s");
    assert_eq!(format_seconds(7320), "2h 2m");
}

#[test]
fn session_tab_title_compacts_long_fields() {
    let session = shown_session("very-long-upstream-name", "very-long-model-name-plus");

    let title = session_tab_title(&session);

    assert!(title.contains("very-long-upstrea."));
    assert!(title.contains("very-long-model-nam."));
    assert!(title.contains("等待保活"));
}

#[test]
fn disabled_session_title_shows_stopped_state() {
    let mut session = shown_session("upstream", "model");
    session.disabled_reason = Some("cache miss".to_string());

    assert!(session_tab_title(&session).contains("已停用"));
    assert_eq!(format_next_keepalive(&session), "已停用");
}

#[test]
fn due_session_title_shows_active_state() {
    let mut session = shown_session("upstream", "model");
    session.next_keepalive_seconds = 0;

    assert!(session_tab_title(&session).contains("活跃"));
}

#[test]
fn sessions_are_shown_shortly() {
    assert_eq!(short_key("0123456789abcdef0123456789abcdef"), "01234567...89abcdef");
    assert_eq!(short_key("short"), "short");
    assert_eq!(short_key("éé"), "éé");
    assert_eq!(short_key("éééé0123456789éééé"), "éééé...éééé");
    assert_eq!(compact_text("abcdef", 4), "abc.");
    assert_eq!(compact_text("abcd", 4), "abcd");
    assert_eq!(compact_text("ab", 0), ".");
    assert_eq!(format_body_bytes(100), "100 B");
    assert_eq!(format_body_bytes(4096), "4.0 KB");
    assert_eq!(format_body_bytes(3 * 1024 * 1024 / 2), "1.5 MB");
    assert_eq!(cache_keepalive_tab_text(7), "缓存保持(007)");
    assert_eq!(active_connections_tab_text(1234), "活跃连接(999)");
}

#[test]
fn selection_follows_the_sessions() {
    let sessions = vec![shown_session("a", "m")];
    let key = sessions[0].key.clone();
    assert_eq!(sync_selected(&sessions, None), Some(key.clone()));
    assert_eq!(sync_selected(&sessions, Some("gone".to_string())), Some(key.clone()));
    assert_eq!(sync_selected(&sessions, Some(key.clone())), Some(key.clone()));
    assert_eq!(sync_selected(&Vec::new(), Some(key.clone())), None);
    assert_eq!(selected_session(&sessions, &Some(key)).unwrap().upstream_name, "a");
}

#[test]
fn answers_to_keepalives_are_read() {
    let answer = keepalive_answer(200, br#"{"usage":{"input_tokens":3}}"#).unwrap();
    assert_eq!(json::to_text(&answer), r#"{"usage":{"input_tokens":3}}"#);
    assert_eq!(json::to_text(&keepalive_answer(204, b"").unwrap()), "null");
    assert_eq!(
        keepalive_answer(503, b"busy\xff").err().unwrap(),
        "cache keepalive upstream status 503 Service Unavailable: busy\u{fffd}"
    );
    assert_eq!(
        keepalive_answer(799, b"").err().unwrap(),
        "cache keepalive upstream status 799 <unknown status code>: "
    );
    let mut usage = TokenUsage::default();
    usage.output_tokens = 8;
    assert!(!is_talkative(&usage));
    usage.output_tokens = 9;
    assert!(is_talkative(&usage));
    assert!(usage.has_total());
    usage.input_tokens = i64::MAX;
    assert!(!usage.has_total());
    usage.total_tokens = 1;
    assert!(usage.has_total());
    assert_eq!(normalized_keepalive_usage(usage).total_tokens, 1);
}
