use codex_switch::active::scroll::LiveTailScrollState;
use codex_switch::active::{
    active_connection_count, can_terminate, char_slice, elapsed_at, format_clock,
    format_started_at, live_tail_texts, output_speed_texts, terminate_status, terminate_text,
    visible_tail_window, LiveConnections, LiveOutputRate, LiveOutputSettings, LiveRequestSnapshot,
    LiveResponseState,
};
use codex_switch::clock::{CivilTime, Timestamp};
use codex_switch::float64::Double;

const SECOND: u128 = 1_000_000_000;

fn double(x: f64) -> Double {
    Double::from_bits(x.to_bits())
}

fn number(x: Double) -> f64 {
    f64::from_bits(x.to_bits())
}

fn at(seconds: i64) -> Timestamp {
    Timestamp { seconds, nanos: 0 }
}

fn snapshot(tail: &str, finished: bool) -> LiveRequestSnapshot {
    LiveRequestSnapshot {
        id: "request-a".to_string(),
        upstream_name: None,
        endpoint: "/responses".to_string(),
        model: Some("gpt-5".to_string()),
        reasoning_effort: None,
        response_state: LiveResponseState::Streaming,
        tail: tail.to_string(),
        tail_start_char_index: 0,
        tail_end_char_index: tail.chars().count(),
        hover_output: tail.to_string(),
        output_rate: Some(LiveOutputRate {
            estimated_tokens_per_second: double(10.0),
            chars_per_second: double(40.0),
        }),
        started_at: at(1_700_000_000),
        finished_at: if finished {
            Some(at(1_700_000_000))
        } else {
            None
        },
        terminating: false,
    }
}

#[test]
fn active_count_excludes_closed_rows() {
    let items = vec![snapshot("active", false), snapshot("closed", true)];

    assert_eq!(active_connection_count(&items), 1);
}

#[test]
fn limited_scroll_advances_by_configured_character_rate() {
    let now = 1_000 * SECOND;
    let item = snapshot(&"a".repeat(200), false);
    let settings = LiveOutputSettings {
        scroll_limit_enabled: true,
        ..LiveOutputSettings::default()
    };
    let mut scroll = LiveTailScrollState::new(&item, settings, now);

    scroll.advance(settings, now + SECOND);

    assert_eq!(number(scroll.visible_end_char_index()), 82.0);
}

#[test]
fn caught_up_scroll_does_not_bank_idle_time() {
    let now = 1_000 * SECOND;
    let settings = LiveOutputSettings {
        scroll_limit_enabled: true,
        ..LiveOutputSettings::default()
    };
    let first = snapshot(&"a".repeat(20), false);
    let mut scroll = LiveTailScrollState::new(&first, settings, now);
    let later = now + 10 * SECOND;
    scroll.advance(settings, later);
    let next = snapshot(&"a".repeat(200), false);

    scroll.sync(&next, settings, later);

    assert_eq!(number(scroll.visible_end_char_index()), 22.0);
}

#[test]
fn closed_connection_waits_for_scroll_and_hold_time() {
    let now = 1_000 * SECOND;
    let item = snapshot(&"a".repeat(100), true);
    let settings = LiveOutputSettings {
        scroll_limit_enabled: true,
        max_scroll_chars_per_second: 100,
        completed_hold_seconds: 2,
    };
    let mut scroll = LiveTailScrollState::new(&item, settings, now);

    assert!(!scroll.hold_finished(now + 2 * SECOND, 2));
    let reached = now + SECOND;
    scroll.advance(settings, reached);
    scroll.update_reached_end(true, reached);

    assert!(!scroll.hold_finished(reached + SECOND, 2));
    assert!(scroll.hold_finished(reached + 2 * SECOND, 2));
}

#[test]
fn unlimited_scroll_stands_at_the_end() {
    let item = snapshot(&"a".repeat(200), false);
    let scroll = LiveTailScrollState::new(&item, LiveOutputSettings::default(), SECOND);
    assert_eq!(number(scroll.visible_end_char_index()), 200.0);
    assert!(!scroll.needs_scroll());
}

#[test]
fn widened_window_shows_more_at_once() {
    let item = snapshot(&"a".repeat(200), false);
    let settings = LiveOutputSettings {
        scroll_limit_enabled: true,
        ..LiveOutputSettings::default()
    };
    let mut scroll = LiveTailScrollState::new(&item, settings, SECOND);
    scroll.set_window_chars(&item, 50, settings, SECOND);
    assert_eq!(scroll.window_chars, 50);
    assert_eq!(number(scroll.visible_end_char_index()), 50.0);
    scroll.set_window_chars(&item, 3, settings, SECOND);
    assert_eq!(scroll.window_chars, 8);
    assert_eq!(number(scroll.visible_end_char_index()), 50.0);
}

#[test]
fn window_of_a_tail_ends_at_the_place_in_sight() {
    let item = snapshot("abcdefghij", false);
    let scroll = LiveTailScrollState::new(&item, LiveOutputSettings::default(), SECOND);
    assert_eq!(visible_tail_window(&item, scroll, 4), "ghij");
    assert_eq!(char_slice("你好吗", 1, 2), "好");
    assert_eq!(char_slice("你好吗", 2, 9), "吗");
    assert_eq!(char_slice("你好吗", 9, 3), "");
    let (shown, hover) = live_tail_texts(&item, scroll, 4);
    assert_eq!(shown, "ghij");
    assert_eq!(hover, "abcdefghij");
}

#[test]
fn running_requests_stay_while_finished_ones_leave_after_the_hold() {
    let settings = LiveOutputSettings::default();
    let start = 1_000 * SECOND;
    let mut live = LiveConnections::new(0, start);
    assert!(!live.wants_snapshots(0, start + 60 * SECOND));
    assert!(live.wants_snapshots(1, start));
    let mut running = snapshot("running", false);
    running.id = "running".to_string();
    let finished = snapshot("finished", true);
    live.take_snapshots(1, vec![running, finished], settings, start);
    assert!(live.wants_snapshots(1, start + 250_000_000));
    live.advance(settings, start);
    assert!(live.drop_held(start + SECOND, 3).is_empty());
    assert_eq!(live.drop_held(start + 3 * SECOND, 3), vec!["request-a".to_string()]);
    assert_eq!(live.items.len(), 1);
    assert_eq!(live.items[0].id, "running");
    assert_eq!(live.repaint_millis(true), Some(250));
}

#[test]
fn nothing_is_drawn_again_without_requests() {
    let live = LiveConnections::new(0, SECOND);
    assert_eq!(live.repaint_millis(true), None);
}

#[test]
fn output_speed_is_shown_with_one_decimal() {
    let (tokens, hover) = output_speed_texts(Some(LiveOutputRate {
        estimated_tokens_per_second: double(10.25),
        chars_per_second: double(40.0),
    }));
    assert_eq!(tokens, "~10.2 tps");
    assert_eq!(hover, Some("字符速度: 40.0 字符/秒".to_string()));
    assert_eq!(output_speed_texts(None), ("-".to_string(), None));
}

#[test]
fn elapsed_time_counts_whole_seconds() {
    let item = snapshot("", false);
    assert_eq!(elapsed_at(&item, at(1_700_000_059)), "59s");
    assert_eq!(elapsed_at(&item, at(1_700_000_125)), "2m 5s");
    assert_eq!(elapsed_at(&item, at(1_600_000_000)), "0s");
    let early = Timestamp {
        seconds: 1_700_000_001,
        nanos: 0,
    };
    let mut late = snapshot("", false);
    late.started_at.nanos = 1;
    assert_eq!(elapsed_at(&late, early), "0s");
    assert_eq!(elapsed_at(&snapshot("", true), at(1_700_000_125)), "0s");
}

#[test]
fn started_at_is_a_time_of_day() {
    let time = CivilTime {
        year: 2024,
        month: 5,
        day: 6,
        hour: 7,
        minute: 8,
        second: 9,
    };
    assert_eq!(format_clock(time), "07:08:09");
    let shown = format_started_at(&snapshot("", false));
    assert_eq!(shown.len(), 8);
    assert_eq!(&shown[5..6], ":");
    assert!(shown.ends_with("20"));
}

#[test]
fn only_running_requests_can_be_terminated() {
    let mut item = snapshot("", false);
    assert!(can_terminate(&item));
    assert_eq!(terminate_text(&item), "终止");
    item.terminating = true;
    assert!(!can_terminate(&item));
    assert_eq!(terminate_text(&item), "终止中");
    let closed = snapshot("", true);
    assert!(!can_terminate(&closed));
    assert_eq!(terminate_text(&closed), "已关闭");
    assert_eq!(terminate_status(true), "正在终止活跃请求");
    assert_eq!(terminate_status(false), "活跃请求已经结束");
}
