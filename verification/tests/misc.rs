use codex_switch::active::{format_elapsed, terminate_hover_text, LiveRequestSnapshot, LiveResponseState};
use codex_switch::app_events::AppEvents;
use codex_switch::balance_alert::{alert_after_failure, refreshes};
use codex_switch::clock::{CivilTime, Timestamp};
use codex_switch::icon::demultiply_rgba;
use codex_switch::log_filter::{status_filter_label, LogDateTimeFilter, LogStatusFilter};
use codex_switch::logs::{
    log_retention_label, retention, retention_at, LogRetentionChoice, RequestLogRetention,
};
use codex_switch::model_test::{
    outcome_status_label, selected_group_label, wire_api_label, ModelTestUi, TargetMode,
};
use codex_switch::models::{
    BalanceProvider, ScheduleGroup, TokenUsage, Upstream, UpstreamBalanceAlertSettings,
    UpstreamKind, WireApi,
};
use codex_switch::oauth::OAuthLoginTaskState;
use codex_switch::upstream_detection::detect_upstream;

fn at(seconds: i64) -> Timestamp {
    Timestamp { seconds, nanos: 0 }
}

#[test]
fn changes_are_counted_one_by_one() {
    let mut events = AppEvents::new();
    assert!(!events.bump_request_logs());
    assert_eq!(events.request_log_version(), 1);
    events.set_repaint_requester();
    assert!(events.bump_live_streams());
    assert!(events.bump_live_streams());
    assert_eq!(events.live_stream_version(), 2);
    assert!(events.bump_cache_keepalive());
    assert_eq!(events.cache_keepalive_version(), 1);
    events.request_logs = u64::MAX;
    events.bump_request_logs();
    assert_eq!(events.request_log_version(), 0);
}

#[test]
fn only_relays_have_their_balance_refreshed() {
    assert!(refreshes(true, UpstreamKind::RelayApiKey));
    assert!(!refreshes(false, UpstreamKind::RelayApiKey));
    assert!(!refreshes(true, UpstreamKind::CodexOauth));
    let mut settings = UpstreamBalanceAlertSettings::new("u".to_string());
    settings.alert_enabled = true;
    settings.alert_active = true;
    assert!(alert_after_failure(&settings));
    settings.alert_enabled = false;
    assert!(!alert_after_failure(&settings));
}

#[test]
fn icon_colours_are_unscaled() {
    let pixels = vec![1, 2, 3, 255, 10, 20, 30, 51, 0, 0, 0, 0];
    assert_eq!(
        demultiply_rgba(&pixels),
        vec![1, 2, 3, 255, 50, 100, 150, 51, 0, 0, 0, 0]
    );
}

#[test]
fn bounds_that_are_not_set_are_no_time() {
    let unset = LogDateTimeFilter::unset();
    assert_eq!(unset.to_utc("开始"), Ok(None));
    let set = LogDateTimeFilter {
        enabled: true,
        value: CivilTime {
            year: 2024,
            month: 5,
            day: 6,
            hour: 7,
            minute: 8,
            second: 9,
        },
    };
    let found = set.to_utc("开始").unwrap().unwrap();
    assert!((found.seconds - 1_714_979_289).abs() < 86_400);
    let wrong = LogDateTimeFilter {
        enabled: true,
        value: CivilTime {
            year: 2024,
            month: 2,
            day: 30,
            hour: 0,
            minute: 0,
            second: 0,
        },
    };
    assert_eq!(wrong.to_utc("开始"), Err("开始 不是有效本地时间".to_string()));
    assert_eq!(status_filter_label(LogStatusFilter::ClientError), "4xx");
}

fn noon(year: i32, month: u32, day: u32) -> LogDateTimeFilter {
    LogDateTimeFilter {
        enabled: true,
        value: CivilTime { year, month, day, hour: 12, minute: 0, second: 0 },
    }
}

#[test]
fn days_of_the_calendar_follow_each_other() {
    let days = [noon(2024, 2, 28), noon(2024, 2, 29), noon(2024, 3, 1), noon(2025, 1, 1)];
    let mut last = i64::MIN;
    for day in days {
        let found = day.to_utc("开始").unwrap().unwrap();
        assert!(found.seconds > last);
        assert_eq!(found.nanos, 0);
        last = found.seconds;
    }
    assert!((last - 1_735_732_800).abs() < 86_400);
    assert!(noon(2023, 2, 29).to_utc("开始").is_err());
    assert!(noon(1900, 2, 29).to_utc("开始").is_err());
    assert!(noon(2024, 13, 1).to_utc("开始").is_err());
}

#[test]
fn cleaning_up_keeps_what_was_chosen() {
    assert_eq!(
        retention_at(LogRetentionChoice::OneWeek, 5, at(700_000)),
        RequestLogRetention::Since(at(700_000 - 604_800))
    );
    assert_eq!(retention(LogRetentionChoice::Count, 5), RequestLogRetention::Newest(5));
    assert_eq!(retention(LogRetentionChoice::Failed, 5), RequestLogRetention::Failed);
    match retention(LogRetentionChoice::OneDay, 5) {
        RequestLogRetention::Since(since) => assert!(since.seconds > 1_700_000_000),
        _ => panic!("a day is kept"),
    }
    assert_eq!(log_retention_label(LogRetentionChoice::OneMonth), "保留一个月");
}

#[test]
fn test_bench_labels_follow_the_choice() {
    let relay = Upstream::relay(
        "a".to_string(),
        at(0),
        "A".to_string(),
        "https://relay.example".to_string(),
        WireApi::AnthropicMessages,
        true,
        BalanceProvider::Auto,
    );
    let upstreams = vec![relay];
    let mut ui = ModelTestUi::new();
    assert_eq!(ui.selected_upstream_label(&upstreams), "选择上游");
    ui.choose_upstream("a".to_string());
    assert_eq!(ui.selected_upstream_label(&upstreams), "A");
    assert!(!ui.selected_is_oauth(&upstreams));
    assert_eq!(ui.fetch_button(&upstreams), (true, "拉取模型列表"));
    ui.models_fetching = true;
    assert_eq!(ui.fetch_button(&upstreams), (false, "拉取中..."));
    assert!(!ui.reasoning_supported(&upstreams));
    ui.target_mode = TargetMode::Scheduler;
    assert!(ui.reasoning_supported(&upstreams));
    assert_eq!(outcome_status_label(true), "成功");
    assert_eq!(wire_api_label(WireApi::ChatCompletions), "Chat Completions");
    let groups = vec![ScheduleGroup::with_id("g".to_string(), at(0), "G".to_string())];
    assert_eq!(selected_group_label(&Some("g".to_string()), &groups), "G");
    assert_eq!(selected_group_label(&None, &groups), "当前调度组");
}

#[test]
fn usage_takes_the_larger_counts() {
    let mut usage = TokenUsage {
        input_tokens: 100,
        cache_read_tokens: 30,
        ..Default::default()
    };
    usage.merge_max(&TokenUsage {
        input_tokens: 90,
        output_tokens: 7,
        cache_creation_tokens: 20,
        ..Default::default()
    });
    assert_eq!(usage.input_tokens, 100);
    assert_eq!(usage.total_tokens, 157);
    assert_eq!(usage.cached_input_tokens(), 30);
    assert_eq!(usage.uncached_input_tokens(), 50);
    usage.input_tokens = 40;
    assert_eq!(usage.uncached_input_tokens(), 40);
}

#[test]
fn accounts_have_their_own_identifiers() {
    let make = || {
        Upstream::new_codex_oauth("me".to_string(), "account".to_string(), None, None, None)
    };
    let first = make();
    assert_eq!(first.id.len(), 36);
    assert_ne!(first.id, make().id);
    assert_eq!(first.kind, UpstreamKind::CodexOauth);
    assert!(OAuthLoginTaskState::Waiting.can_remove());
    assert!(!OAuthLoginTaskState::Polling.can_remove());
    assert!(detect_upstream("https://api.anthropic.com").has_suggestion());
    assert!(!detect_upstream("https://relay.example").has_suggestion());
}

#[test]
fn finished_request_has_a_fixed_length() {
    let item = LiveRequestSnapshot {
        id: "r".to_string(),
        upstream_name: None,
        endpoint: String::new(),
        model: None,
        reasoning_effort: None,
        response_state: LiveResponseState::NonStreaming,
        tail: String::new(),
        tail_start_char_index: 0,
        tail_end_char_index: 0,
        hover_output: String::new(),
        output_rate: None,
        started_at: at(100),
        finished_at: Some(at(161)),
        terminating: false,
    };
    assert_eq!(format_elapsed(&item), "1m 1s");
    assert_eq!(terminate_hover_text(&item), "连接已经关闭");
}
