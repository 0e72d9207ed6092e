use codex_switch::activity::UpstreamActivity;

const SECOND: u128 = 1_000_000_000;

#[test]
fn inflight_call_marks_upstream_active() {
    let mut activity = UpstreamActivity::new();
    let guard = activity.begin("upstream-a");

    assert!(activity.is_active("upstream-a", 0, 5));
    assert!(!activity.is_active("upstream-b", 60 * SECOND, 5));

    activity.finish(guard, 6);
}

#[test]
fn finished_call_keeps_upstream_active_within_window() {
    let mut activity = UpstreamActivity::new();
    let guard = activity.begin("upstream-a");
    activity.finish(guard, 100);

    assert!(activity.is_active("upstream-a", 60 * SECOND, 101));
    assert!(!activity.is_active("upstream-a", 0, 101));
}

#[test]
fn concurrent_calls_keep_upstream_active_until_all_finish() {
    let mut activity = UpstreamActivity::new();
    let first = activity.begin("upstream-a");
    let second = activity.begin("upstream-a");

    activity.finish(first, 10);
    assert!(activity.is_active("upstream-a", 0, 11));

    activity.finish(second, 12);
    assert!(!activity.is_active("upstream-a", 0, 13));
}

#[test]
fn window_ends_exactly_at_its_length() {
    let mut activity = UpstreamActivity::new();
    let guard = activity.begin("a");
    activity.finish(guard, 100);
    assert!(activity.is_active("a", 50, 150));
    assert!(!activity.is_active("a", 50, 151));
    assert!(activity.is_active("a", 50, 90));
}
