use codex_switch::clock::Timestamp;
use codex_switch::float64::Double;
use codex_switch::log_filter::{
    filter_button, filter_status, F64RangeFilter, I64RangeFilter, LogFilterState,
    LogSourceFilter, LogStatusFilter, RequestLogSource,
};
use codex_switch::logs::{
    format_civil, format_duration, format_log_time, format_optional_duration, log_cost_text,
    log_endpoint_options, log_hover_text, log_model_options, log_page_items, log_result_range,
    log_total_pages, log_upstream_options, model_text, result_line, retention_at, LogPageItem,
    LogRetentionChoice, RequestLogRetention,
};
use codex_switch::clock::CivilTime;
use codex_switch::models::{RequestLog, TokenUsage};

fn range(min: &str, max: &str) -> I64RangeFilter {
    I64RangeFilter { min: min.to_string(), max: max.to_string() }
}

fn log(model: Option<&str>, status: i64) -> RequestLog {
    RequestLog {
        ts: None,
        upstream_id: None,
        upstream_name: Some("relay".to_string()),
        endpoint: "/responses".to_string(),
        model: model.map(|m| m.to_string()),
        reasoning_effort: None,
        status,
        usage: TokenUsage::default(),
        estimated_cost_usd: None,
        duration_ms: 0,
        first_token_ms: None,
        error: Some("boom".to_string()),
    }
}

#[test]
fn log_filter_state_parses_token_units() {
    let state = LogFilterState {
        input_tokens: range("64K", ""),
        output_tokens: range("", "1.5M"),
        total_tokens: range("2B", ""),
        ..LogFilterState::cleared()
    };

    let filter = state.to_runtime_filter().unwrap();

    assert_eq!(filter.input_tokens_min, Some(64_000));
    assert_eq!(filter.output_tokens_max, Some(1_500_000));
    assert_eq!(filter.total_tokens_min, Some(2_000_000_000));
}

#[test]
fn filters_report_what_is_wrong() {
    let state = LogFilterState { duration_ms: range("5", "x"), ..LogFilterState::cleared() };
    assert_eq!(state.to_runtime_filter().unwrap_err(), "耗时 需要填写整数");
    let state = LogFilterState { duration_ms: range("5", "4"), ..LogFilterState::cleared() };
    assert_eq!(state.to_runtime_filter().unwrap_err(), "耗时 最小值不能大于最大值");
    let state = LogFilterState { total_tokens: range("2K", "1K"), ..LogFilterState::cleared() };
    assert_eq!(state.to_runtime_filter().unwrap_err(), "总 tokens 最小值不能大于最大值");
    let price = |min: &str, max: &str| LogFilterState {
        price_usd: F64RangeFilter { min: min.to_string(), max: max.to_string() },
        ..LogFilterState::cleared()
    };
    assert_eq!(price("x", "").to_runtime_filter().unwrap_err(), "费用 需要填写数字");
    assert_eq!(price("inf", "").to_runtime_filter().unwrap_err(), "费用 需要填写有效数字");
    assert_eq!(price("$2", "$1.5").to_runtime_filter().unwrap_err(), "费用 最小值不能大于最大值");
    let filter = price(" $0.5 ", "").to_runtime_filter().unwrap();
    assert_eq!(filter.estimated_cost_usd_min.unwrap().to_bits(), 0.5_f64.to_bits());
    let mut state = LogFilterState::cleared();
    state.started_at.enabled = true;
    state.started_at.value = CivilTime {
        year: 2024,
        month: 2,
        day: 30,
        hour: 0,
        minute: 0,
        second: 0,
    };
    assert_eq!(state.to_runtime_filter().unwrap_err(), "开始时间 不是有效本地时间");
    state.ended_at.enabled = true;
    let later = Timestamp { seconds: 9, nanos: 0 };
    let earlier = Timestamp { seconds: 8, nanos: 0 };
    assert_eq!(
        state.filter_with(Some(later), Some(earlier)).unwrap_err(),
        "开始时间不能晚于结束时间"
    );
    assert_eq!(
        state.filter_with(Some(earlier), None).unwrap_err(),
        "结束时间 不是有效本地时间"
    );
    let filter = state.filter_with(Some(earlier), Some(later)).unwrap();
    assert_eq!(filter.started_at, Some(earlier));
}

#[test]
fn filters_count_their_fields() {
    let mut state = LogFilterState::cleared();
    assert!(!state.is_active());
    assert_eq!(filter_button(&state), "筛选日志");
    assert_eq!(filter_status(&state), "日志筛选已清空");
    state.status = LogStatusFilter::Custom;
    state.source = LogSourceFilter::TestBench;
    assert_eq!(state.active_count(), 3);
    assert_eq!(filter_button(&state), "筛选日志 (3)");
    assert_eq!(filter_status(&state), "日志筛选已应用: 3 项");
    state.status_custom = range("201", "");
    assert_eq!(state.active_count(), 2);
    let filter = state.to_runtime_filter().unwrap();
    assert_eq!((filter.status_min, filter.status_max), (Some(201), None));
    assert_eq!(filter.source, Some(RequestLogSource::TestBench));
    state.status = LogStatusFilter::ClientError;
    let filter = state.to_runtime_filter().unwrap();
    assert_eq!((filter.status_min, filter.status_max), (Some(400), Some(499)));
}

#[test]
fn pages_fill_seven_places() {
    let page = LogPageItem::Page;
    assert_eq!(log_page_items(0, 0), vec![LogPageItem::Empty; 7]);
    assert_eq!(
        log_page_items(5, 20),
        vec![
            page(0),
            LogPageItem::Ellipsis,
            page(4),
            page(5),
            page(6),
            LogPageItem::Ellipsis,
            page(19)
        ]
    );
    assert_eq!(log_page_items(17, 20)[2..], [page(15), page(16), page(17), page(18), page(19)]);
    assert_eq!(log_page_items(1, 3)[..4], [page(0), page(1), page(2), LogPageItem::Empty]);
    assert_eq!(log_total_pages(41, 20), 3);
    assert_eq!(log_total_pages(40, 20), 2);
    assert_eq!(log_total_pages(0, 20), 0);
    assert_eq!(log_total_pages(5, 0), 0);
    assert_eq!(log_result_range(1, 20, 35), (21, 35));
    assert_eq!(log_result_range(0, 20, 0), (0, 0));
    assert_eq!(result_line(1, 20, 35), "显示 21 至 35 共 35 条结果");
}

#[test]
fn entries_have_texts() {
    let failed = log(Some("gpt"), 500);
    assert_eq!(model_text(&failed), "gpt / 错误");
    assert_eq!(model_text(&log(None, 200)), "-");
    assert_eq!(
        log_hover_text(&failed),
        "上游: relay\nendpoint: /responses\nstatus: 500\nerror: boom"
    );
    assert_eq!(format_duration(999), "999ms");
    assert_eq!(format_duration(1234), "1.23s");
    assert_eq!(format_optional_duration(None), "-");
    assert_eq!(log_cost_text(None), "-");
    assert_eq!(log_cost_text(Some(Double::from_bits(0.5_f64.to_bits()))), "$0.5000");
    assert_eq!(format_log_time(&failed), "-");
    let mut timed = log(None, 200);
    timed.ts = Some(Timestamp { seconds: 86_400 * 365, nanos: 0 });
    assert_eq!(format_log_time(&timed).len(), 19);
    let t = CivilTime { year: 2024, month: 3, day: 9, hour: 5, minute: 6, second: 7 };
    assert_eq!(format_civil(t), "2024/03/09 05:06:07");
    let t = CivilTime { year: 12024, ..t };
    assert_eq!(format_civil(t), "+12024/03/09 05:06:07");
}

#[test]
fn options_are_sorted_and_distinct() {
    let logs = vec![log(Some("b"), 200), log(Some("a"), 200), log(Some("b"), 200), log(Some(""), 1)];
    assert_eq!(log_model_options(&logs), vec!["a".to_string(), "b".to_string()]);
    assert_eq!(log_endpoint_options(&logs), vec!["/responses".to_string()]);
    assert_eq!(log_upstream_options(&logs, &vec![]), vec!["relay".to_string()]);
}

#[test]
fn retention_is_counted_back() {
    let now = Timestamp { seconds: 1_000_000, nanos: 5 };
    assert_eq!(
        retention_at(LogRetentionChoice::OneWeek, 0, now),
        RequestLogRetention::Since(Timestamp { seconds: 1_000_000 - 7 * 86_400, nanos: 5 })
    );
    assert_eq!(
        retention_at(LogRetentionChoice::Count, 50, now),
        RequestLogRetention::Newest(50)
    );
    assert_eq!(
        retention_at(LogRetentionChoice::Failed, 50, now),
        RequestLogRetention::Failed
    );
}
