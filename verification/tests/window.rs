use codex_switch::active::{LiveRequestSnapshot, LiveResponseState};
use codex_switch::clock::Timestamp;
use codex_switch::float64::Double;
use codex_switch::models::{
    BalanceProvider, BalanceSnapshot, RequestLog, ScheduleGroup, TokenUsage, Upstream, WireApi,
};
use codex_switch::scheduler::blank_rule;
use codex_switch::shell::{
    answer_delete, keeps_group_editor, remove_rule, CloseAction, DeleteAction,
    DeleteConfirmation, OutsideRequest, Shell, StartError, StoredSettings, Tab, TrayAction,
    Versions,
};
use codex_switch::single_instance::{launch_line, message_complete, message_text, pipe_name_for};
use codex_switch::tokens::UsdCnyRate;
use codex_switch::tray::{
    click_command, menu_command, service_menu_text, theme_change, theme_is_dark,
    tray_balance, BackgroundReopenMonitor, ReopenState, TrayCommand,
};
use codex_switch::update_view::{
    auto_check_status, can_check_again, download_line, footer, format_bytes, release_page_status,
    skipped_status, window_line, UpdateInfo, UpdateState,
};
use codex_switch::window_state::{
    drops_from_file, restored_at_start, sanitize_on_save, take_initial_fullscreen,
    DeferredFullscreen, FullscreenStep, Pair, PersistedWindowSettings, Sanitizing,
};

const SECOND: u128 = 1_000_000_000;

fn pair(x: f32, y: f32) -> Pair {
    Pair {
        x: Double::from_bits(f64::from(x).to_bits()),
        y: Double::from_bits(f64::from(y).to_bits()),
    }
}

fn invalid_settings() -> PersistedWindowSettings {
    PersistedWindowSettings {
        inner_position_pixels: Some(pair(-32000.0, -32000.0)),
        outer_position_pixels: Some(pair(-32000.0, -32000.0)),
        fullscreen: false,
        maximized: false,
        inner_size_points: Some(pair(0.0, 0.0)),
    }
}

fn valid_settings() -> PersistedWindowSettings {
    PersistedWindowSettings {
        inner_position_pixels: Some(pair(100.0, 100.0)),
        outer_position_pixels: Some(pair(100.0, 100.0)),
        fullscreen: false,
        maximized: false,
        inner_size_points: Some(pair(780.0, 560.0)),
    }
}

#[test]
fn rejects_hidden_window_placeholder() {
    assert!(!invalid_settings().is_valid());
    assert!(valid_settings().is_valid());
}

#[test]
fn sanitize_removes_invalid_state_without_last_good() {
    let (change, last_good) = sanitize_on_save(Some(invalid_settings()), None);

    assert!(last_good.is_none());
    assert!(matches!(change, Sanitizing::Remove));
}

#[test]
fn sanitize_restores_last_good_state() {
    let (change, restored) = sanitize_on_save(Some(invalid_settings()), Some(valid_settings()));
    assert_eq!(
        restored.as_ref().map(PersistedWindowSettings::is_valid),
        Some(true)
    );
    match change {
        Sanitizing::Replace(stored) => assert!(stored.is_valid()),
        _ => panic!("the stored state is replaced"),
    }
}

#[test]
fn sanitize_keeps_a_valid_state() {
    let (change, last_good) = sanitize_on_save(Some(valid_settings()), None);
    assert!(matches!(change, Sanitizing::Keep));
    assert!(last_good.unwrap().is_valid());
    assert!(!drops_from_file(Some(valid_settings())));
    assert!(drops_from_file(Some(invalid_settings())));
}

#[test]
fn bad_state_asks_for_the_default_size_at_start() {
    let (kept, resize) = restored_at_start(Some(invalid_settings()));
    assert!(kept.is_none());
    assert!(resize);
    let (kept, resize) = restored_at_start(Some(valid_settings()));
    assert!(kept.is_some());
    assert!(!resize);
    let (kept, resize) = restored_at_start(None);
    assert!(kept.is_none());
    assert!(!resize);
}

#[test]
fn fullscreen_flag_is_taken_once() {
    let mut settings = valid_settings();
    settings.fullscreen = true;
    let taken = take_initial_fullscreen(settings).unwrap();
    assert!(!taken.fullscreen);
    assert!(taken.inner_size_points.is_some());
    assert!(take_initial_fullscreen(taken).is_none());
}

#[test]
fn deferred_fullscreen_waits_until_window_is_visible() {
    let mut deferred = DeferredFullscreen::new(true);

    deferred.maybe_apply(SECOND, false, false);
    assert!(deferred.pending);
    assert!(deferred.next_attempt_at.is_none());

    deferred.maybe_apply(SECOND, true, false);
    assert!(deferred.pending);
    assert!(deferred.next_attempt_at.is_some());
}

#[test]
fn deferred_fullscreen_idle_without_persisted_flag() {
    let mut deferred = DeferredFullscreen::new(false);

    deferred.maybe_apply(SECOND, true, false);
    assert!(!deferred.pending);
    assert!(deferred.next_attempt_at.is_none());
}

#[test]
fn deferred_fullscreen_is_asked_for_and_given_up() {
    let mut deferred = DeferredFullscreen::new(true);
    let mut now = SECOND;
    assert!(matches!(deferred.maybe_apply(now, true, false), FullscreenStep::Wait(500_000_000)));
    now += 500_000_000;
    for _ in 0..5 {
        assert!(matches!(
            deferred.maybe_apply(now, true, false),
            FullscreenStep::Request(700_000_000)
        ));
        now += 700_000_000;
    }
    assert!(matches!(deferred.maybe_apply(now, true, false), FullscreenStep::GiveUp));
    assert!(!deferred.pending);
    let mut restored = DeferredFullscreen::new(true);
    restored.maybe_apply(SECOND, true, false);
    assert!(matches!(
        restored.maybe_apply(2 * SECOND, true, true),
        FullscreenStep::Restored
    ));
}

#[test]
fn tray_menu_names_its_commands() {
    assert_eq!(menu_command("codex-switch-open-window"), Some(TrayCommand::ShowWindow));
    assert_eq!(menu_command("codex-switch-toggle-service"), Some(TrayCommand::ToggleService));
    assert_eq!(menu_command("codex-switch-quit"), Some(TrayCommand::Quit));
    assert_eq!(menu_command("another"), None);
    assert_eq!(click_command(true, true), Some(TrayCommand::ShowWindow));
    assert_eq!(click_command(true, false), None);
    assert_eq!(click_command(false, true), None);
    assert_eq!(service_menu_text(true), "关闭服务");
    assert_eq!(service_menu_text(false), "启动服务");
    assert!(theme_is_dark(Some(0)));
    assert!(!theme_is_dark(Some(1)));
    assert!(!theme_is_dark(None));
    assert_eq!(theme_change(true, true), None);
    assert_eq!(theme_change(true, false), Some(TrayCommand::ThemeChanged(false)));
}

#[test]
fn hidden_window_reopens_after_losing_the_focus() {
    let mut monitor = BackgroundReopenMonitor {
        state: ReopenState::Idle,
    };
    assert!(!monitor.should_show_hidden_window(true));
    monitor.mark_hidden();
    assert!(!monitor.should_show_hidden_window(true));
    assert!(!monitor.should_show_hidden_window(false));
    assert!(monitor.should_show_hidden_window(true));
}

#[test]
fn launch_line_is_read_back() {
    let line = launch_line(&vec!["codex-switch".to_string(), "--show".to_string()]);
    assert!(line.ends_with('\n'));
    assert!(message_complete(line.as_bytes(), false));
    assert_eq!(message_text(line.as_bytes()), line.trim());
    assert!(!message_complete(b"partial", false));
    assert!(message_complete(b"partial", true));
    assert!(message_complete(&[b'a'; 4096], false));
    assert_eq!(message_text(&[b'a', 0xff, b'\n']), "a\u{fffd}");
}

#[test]
fn pipe_names_differ_by_directory() {
    let first = pipe_name_for("C:\\Users\\a");
    assert_ne!(first, pipe_name_for("C:\\Users\\b"));
    assert_eq!(first, pipe_name_for("C:\\Users\\a"));
    assert!(!first.contains("Users"));
}

fn versions() -> Versions {
    Versions {
        request_log: 1,
        cache_keepalive: 1,
        balance_snapshot: 1,
        peer: 1,
        show_window: 1,
        exit_request: 1,
    }
}

fn stored() -> StoredSettings {
    StoredSettings {
        bind_addr: None,
        local_key: None,
        dock_icon_follows_window: None,
        start_server_on_launch: None,
        start_peer_on_launch: None,
    }
}

fn shell() -> Shell {
    Shell::launch(stored(), versions(), None, false, 100 * SECOND).0
}

#[test]
fn launch_goes_by_the_stored_settings() {
    let (shell, actions) = Shell::launch(stored(), versions(), None, false, SECOND);
    assert_eq!(shell.bind_addr, "127.0.0.1:15721");
    assert_eq!(shell.local_key, "");
    assert_eq!(shell.status, "就绪");
    assert!(shell.dock_icon_follows_window);
    assert!(!actions.hide_dock_icon && !actions.start_server && !actions.start_peer);
    let settings = StoredSettings {
        bind_addr: Some("0.0.0.0:1".to_string()),
        local_key: Some("sk".to_string()),
        dock_icon_follows_window: Some("false".to_string()),
        start_server_on_launch: Some("true".to_string()),
        start_peer_on_launch: Some("yes".to_string()),
    };
    let (shell, actions) = Shell::launch(settings, versions(), None, true, SECOND);
    assert_eq!(shell.bind_addr, "0.0.0.0:1");
    assert_eq!(shell.local_key, "sk");
    assert_eq!(shell.status, "已按设置在后台启动, 可从系统托盘打开主界面");
    assert!(shell.window_hidden);
    assert!(!actions.hide_dock_icon);
    assert!(actions.start_server);
    assert!(!actions.start_peer);
    assert_eq!(shell.log_window(), (20, 0));
}

#[test]
fn announced_changes_are_looked_at_once() {
    let mut shell = shell();
    let now = 101 * SECOND;
    let mut news = versions();
    let look = shell.watch.maybe_auto_refresh(false, Tab::Dashboard, news, now);
    assert_eq!(look.repaint_millis, 500);
    assert!(!look.sessions && !look.peers && !look.everything && !look.log_count);
    news.peer = 2;
    news.balance_snapshot = 2;
    let look = shell.watch.maybe_auto_refresh(false, Tab::Dashboard, news, now);
    assert!(look.peers && look.everything);
    let look = shell.watch.maybe_auto_refresh(false, Tab::Dashboard, news, now);
    assert!(!look.peers && !look.everything);
    news.request_log = 2;
    assert!(!shell.watch.maybe_auto_refresh(true, Tab::Dashboard, news, now).everything);
    assert!(shell.watch.maybe_auto_refresh(false, Tab::Dashboard, news, now).everything);
}

#[test]
fn sessions_and_the_log_are_looked_at_now_and_then() {
    let mut shell = shell();
    let news = versions();
    let look = shell.watch.maybe_auto_refresh(false, Tab::CacheKeepalive, news, 101 * SECOND);
    assert!(look.sessions);
    shell.watch.sessions_refreshed(1, 101 * SECOND);
    let look = shell.watch.maybe_auto_refresh(false, Tab::CacheKeepalive, news, 101 * SECOND);
    assert!(!look.sessions);
    let look = shell.watch.maybe_auto_refresh(false, Tab::Dashboard, news, 110 * SECOND);
    assert!(look.log_count && !look.sessions);
    assert!(shell.watch.log_count_differs(1));
    shell.watch.everything_refreshed(news, 1);
    assert!(!shell.watch.log_count_differs(1));
    let look = shell.watch.maybe_auto_refresh(true, Tab::CacheKeepalive, news, 200 * SECOND);
    assert_eq!(look.repaint_millis, 5_000);
    assert!(!look.log_count && !look.sessions);
    assert!(shell.watch.tray_refresh_due(101 * SECOND));
    assert!(!shell.watch.tray_refresh_due(101 * SECOND));
    shell.watch.service_changed(101 * SECOND);
    assert!(shell.watch.tray_refresh_due(101 * SECOND));
}

#[test]
fn closed_window_hides_behind_the_tray() {
    let mut shell = shell();
    assert_eq!(shell.handle_close_request(), CloseAction::Close);
    assert!(shell.wants_tray());
    shell.tray_made(Ok(()));
    assert!(!shell.wants_tray());
    assert_eq!(
        shell.handle_close_request(),
        CloseAction::Hide {
            hide_dock_icon: true
        }
    );
    assert!(shell.window_hidden);
    assert_eq!(shell.status, "窗口已隐藏到系统托盘");
    assert!(!shell.handle_dock_reopen(false));
    assert!(shell.handle_dock_reopen(true));
    shell.show_main_window();
    assert_eq!(shell.status, "主界面已打开");
    assert!(!shell.handle_dock_reopen(true));
    shell.exit_app();
    assert_eq!(shell.handle_close_request(), CloseAction::Close);
}

#[test]
fn missing_tray_is_not_made_again() {
    let mut shell = shell();
    shell.tray_made(Err("no tray".to_string()));
    assert!(!shell.wants_tray());
    assert_eq!(shell.status, "系统托盘初始化失败: no tray");
}

#[test]
fn end_goes_before_showing_the_window() {
    let mut shell = shell();
    let mut news = versions();
    news.exit_request = 2;
    news.show_window = 2;
    assert_eq!(shell.watch.handle_app_events(false, news), OutsideRequest::Exit);
    assert_eq!(shell.watch.handle_app_events(true, news), OutsideRequest::Nothing);
    let mut shell = self::shell();
    news.exit_request = 1;
    assert_eq!(shell.watch.handle_app_events(false, news), OutsideRequest::ShowWindow);
    assert_eq!(shell.watch.handle_app_events(false, news), OutsideRequest::Nothing);
}

#[test]
fn tray_commands_come_to_actions() {
    let mut shell = shell();
    assert_eq!(shell.handle_tray_command(TrayCommand::ShowWindow, true), TrayAction::ShowWindow);
    assert_eq!(shell.handle_tray_command(TrayCommand::ToggleService, true), TrayAction::StartServer);
    shell.server_started("127.0.0.1:1", Ok(()));
    assert_eq!(shell.handle_tray_command(TrayCommand::ToggleService, true), TrayAction::StopServer);
    assert_eq!(shell.handle_tray_command(TrayCommand::Quit, true), TrayAction::Exit);
    assert_eq!(shell.handle_tray_command(TrayCommand::CheckUpdates, true), TrayAction::CheckUpdates);
    assert!(shell.update_window_open);
    assert_eq!(shell.status, "正在检查更新...");
    assert_eq!(
        shell.handle_tray_command(TrayCommand::ToggleAutoCheck, true),
        TrayAction::SetAutoCheck(false)
    );
    assert_eq!(shell.status, "已关闭启动时自动检查更新");
    assert_eq!(
        shell.handle_tray_command(TrayCommand::ThemeChanged(true), true),
        TrayAction::SetTheme(true)
    );
}

#[test]
fn service_starts_and_stops() {
    let mut shell = shell();
    assert_eq!(shell.begin_server(), Some("127.0.0.1:15721".to_string()));
    shell.server_started("127.0.0.1:15721", Err(StartError::Save("disk".to_string())));
    assert_eq!(shell.status, "保存监听地址失败: disk");
    shell.server_started("127.0.0.1:15721", Err(StartError::Listen("busy".to_string())));
    assert_eq!(shell.status, "服务启动失败: busy");
    shell.server_started("127.0.0.1:15721", Ok(()));
    assert_eq!(shell.status, "服务已启动: http://127.0.0.1:15721");
    assert_eq!(shell.begin_server(), None);
    assert_eq!(shell.status, "服务已经在运行");
    shell.stop_server();
    assert_eq!(shell.status, "服务已停止");
    assert!(!shell.services.server_running);
}

#[test]
fn node_that_cannot_be_found_does_not_listen() {
    let mut shell = shell();
    assert!(shell.begin_peer_server());
    shell.peer_server_started("0.0.0.0:2", Err(StartError::Save("disk".to_string())));
    assert_eq!(shell.status, "保存节点监听地址失败: disk");
    shell.peer_server_started("0.0.0.0:2", Err(StartError::Listen("busy".to_string())));
    assert_eq!(shell.status, "节点监听启动失败: busy");
    shell.peer_server_started("0.0.0.0:2", Err(StartError::Discovery("mdns".to_string())));
    assert_eq!(shell.status, "节点发现启动失败: mdns");
    assert!(!shell.services.peer_running);
    shell.peer_server_started("0.0.0.0:2", Ok(()));
    assert_eq!(shell.status, "节点监听已启动: 0.0.0.0:2");
    assert!(!shell.begin_peer_server());
    assert_eq!(shell.status, "节点监听已经在运行");
    shell.discovery_restarted(Err("mdns".to_string()));
    assert_eq!(shell.status, "刷新节点发现失败: mdns");
    shell.stop_peer_server();
    assert_eq!(shell.status, "节点监听已停止");
}

#[test]
fn ending_stops_everything() {
    let mut shell = shell();
    shell.peer_server_started("a", Ok(()));
    shell.server_started("b", Ok(()));
    shell.exit_confirm_open = true;
    assert!(!shell.answer_exit(false, false, true));
    assert!(shell.exit_confirm_open);
    assert!(shell.answer_exit(true, false, true));
    assert!(!shell.exit_confirm_open);
    shell.exit_app();
    assert!(shell.exit_requested);
    assert!(!shell.services.server_running && !shell.services.peer_running);
    assert_eq!(shell.status, "服务已停止");
    shell.refresh_failed("locked");
    assert_eq!(shell.status, "刷新失败: locked");
}

#[test]
fn each_balance_is_asked_for_once() {
    let mut shell = shell();
    assert!(shell.begin_balance_query("a"));
    assert_eq!(shell.status, "正在查询余额");
    assert!(!shell.begin_balance_query("a"));
    assert!(shell.begin_balance_query("b"));
    assert!(shell.balance_queried("a", Ok(())));
    assert_eq!(shell.status, "余额已刷新");
    assert!(shell.begin_balance_query("a"));
    assert!(!shell.balance_queried("a", Err("401".to_string())));
    assert_eq!(shell.status, "余额查询失败: 401");
    assert!(!shell.begin_balance_query("b"));
}

#[test]
fn quota_and_pairing_are_asked_for_one_at_a_time() {
    let mut shell = shell();
    assert!(shell.begin_quota_query());
    assert_eq!(shell.status, "正在查询额度");
    assert!(!shell.begin_quota_query());
    assert!(shell.quota_queried(Ok(())));
    assert_eq!(shell.status, "额度已刷新");
    assert!(shell.begin_quota_query());
    assert!(!shell.quota_queried(Err("timeout".to_string())));
    assert_eq!(shell.status, "额度查询失败: timeout");
    shell.fetches.pairing_pending = true;
    assert!(shell.peer_paired(Ok("paired".to_string())));
    assert_eq!(shell.status, "paired");
    assert!(!shell.fetches.pairing_pending);
    assert!(!shell.peer_paired(Err("refused".to_string())));
    assert_eq!(shell.status, "节点配对失败: refused");
}

#[test]
fn prices_are_fetched_with_the_exchange_rate() {
    let mut shell = shell();
    assert!(shell.begin_price_fetch_once());
    assert_eq!(shell.status, "正在检查模型信息缓存");
    assert!(!shell.begin_price_fetch_once());
    assert!(!shell.begin_price_fetch());
    assert!(!shell.prices_fetched_once(Ok((3, false)), Ok(None)));
    assert_eq!(shell.status, "模型信息缓存可用: 3 条");
    assert!(!shell.prices_fetched_once(Ok((0, false)), Ok(None)));
    assert_eq!(shell.status, "模型信息缓存可用: 3 条");
    assert!(shell.prices_fetched_once(Ok((4, true)), Err("dns".to_string())));
    assert_eq!(shell.status, "模型信息已获取: 4 条, 汇率获取失败: dns");
    assert!(!shell.prices_fetched_once(Err("dns".to_string()), Ok(None)));
    assert_eq!(shell.status, "模型信息获取失败, 将使用已有缓存: dns");
    assert!(shell.begin_price_fetch());
    assert_eq!(shell.status, "正在获取模型信息和汇率");
    let rate = UsdCnyRate {
        rate: Double::from_bits(7.12345f64.to_bits()),
        fetched_at: 0,
    };
    assert!(shell.prices_fetched(Ok(5), Ok(Some(rate))));
    assert_eq!(shell.status, "模型信息已获取: 5 条, 汇率 1 USD = 7.1235 CNY");
    assert!(shell.fetches.usd_cny_rate.is_some());
    assert!(!shell.prices_fetched(Err("dns".to_string()), Ok(None)));
    assert_eq!(shell.status, "模型信息获取失败: dns");
    shell.window_hidden = true;
    assert!(!shell.prices_fetched(Ok(5), Ok(None)));
}

#[test]
fn deletion_waits_for_an_answer() {
    let question = DeleteConfirmation {
        title: "t".to_string(),
        message: "m".to_string(),
        action: DeleteAction::Upstream("u".to_string()),
    };
    let (action, kept) = answer_delete(question, false, false, true);
    assert!(action.is_none());
    let (action, kept) = answer_delete(kept.unwrap(), true, false, true);
    assert!(matches!(action, Some(DeleteAction::Upstream(_))));
    assert!(kept.is_none());
    let question = DeleteConfirmation {
        title: "t".to_string(),
        message: "m".to_string(),
        action: DeleteAction::ScheduleGroup("g".to_string()),
    };
    let (action, kept) = answer_delete(question, false, false, false);
    assert!(action.is_none() && kept.is_none());
}

#[test]
fn rules_of_an_identifier_are_removed() {
    let mut rules = vec![
        blank_rule("a".to_string(), "g".to_string()),
        blank_rule("b".to_string(), "g".to_string()),
        blank_rule("a".to_string(), "g".to_string()),
        blank_rule("c".to_string(), "g".to_string()),
    ];
    remove_rule(&mut rules, "a");
    assert_eq!(rules.len(), 2);
    assert_eq!(rules[0].id, "b");
    assert_eq!(rules[1].id, "c");
}

#[test]
fn editor_of_a_deleted_group_closes() {
    let mut group = ScheduleGroup::new("g".to_string());
    group.id = "g".to_string();
    let groups = vec![group];
    assert!(keeps_group_editor(&groups, "g"));
    assert!(!keeps_group_editor(&groups, "h"));
}

fn balance_of(id: &str, unit: Option<&str>, is_valid: bool) -> (String, Option<BalanceSnapshot>) {
    let snapshot = BalanceSnapshot {
        upstream_id: id.to_string(),
        provider: String::new(),
        remaining: Some(Double::from_bits(2.5f64.to_bits())),
        total: None,
        used: None,
        unit: unit.map(str::to_string),
        is_valid,
        message: None,
        fetched_at: 0,
    };
    (id.to_string(), Some(snapshot))
}

fn request(upstream_name: Option<&str>, finished: bool) -> LiveRequestSnapshot {
    LiveRequestSnapshot {
        id: "request".to_string(),
        upstream_name: upstream_name.map(str::to_string),
        endpoint: "/responses".to_string(),
        model: None,
        reasoning_effort: None,
        response_state: LiveResponseState::Streaming,
        tail: String::new(),
        tail_start_char_index: 0,
        tail_end_char_index: 0,
        hover_output: String::new(),
        output_rate: None,
        started_at: Timestamp { seconds: 0, nanos: 0 },
        finished_at: if finished { Some(Timestamp { seconds: 1, nanos: 0 }) } else { None },
        terminating: false,
    }
}

fn logged(upstream_id: Option<&str>) -> RequestLog {
    RequestLog {
        ts: None,
        upstream_id: upstream_id.map(str::to_string),
        upstream_name: None,
        endpoint: "/responses".to_string(),
        model: None,
        reasoning_effort: None,
        status: 200,
        usage: TokenUsage::default(),
        estimated_cost_usd: None,
        duration_ms: 0,
        first_token_ms: None,
        error: None,
    }
}

fn relay_of(id: &str, name: &str) -> Upstream {
    Upstream::relay(
        id.to_string(),
        Timestamp { seconds: 0, nanos: 0 },
        name.to_string(),
        "https://relay.example".to_string(),
        WireApi::Responses,
        true,
        BalanceProvider::Auto,
    )
}

#[test]
fn tray_shows_a_valid_balance() {
    let none = Vec::new();
    let logs = |id: &str| vec![logged(Some(id))];
    let snapshots = vec![
        ("b".to_string(), None),
        balance_of("a", None, true),
        balance_of("d", Some("USD"), false),
    ];
    let (amount, unit) = tray_balance(&none, &Vec::new(), &logs("a"), &snapshots).unwrap();
    assert_eq!(f64::from_bits(amount.to_bits()), 2.5);
    assert_eq!(unit, "");
    assert!(tray_balance(&none, &Vec::new(), &logs("b"), &snapshots).is_none());
    assert!(tray_balance(&none, &Vec::new(), &logs("c"), &snapshots).is_none());
    assert!(tray_balance(&none, &Vec::new(), &logs("d"), &snapshots).is_none());
    assert!(tray_balance(&none, &Vec::new(), &vec![logged(None)], &snapshots).is_none());
    assert!(tray_balance(&none, &Vec::new(), &Vec::new(), &snapshots).is_none());
}

#[test]
fn tray_tells_of_the_running_request() {
    let upstreams = vec![relay_of("a", "first"), relay_of("b", "second"), relay_of("c", "second")];
    let snapshots = vec![
        balance_of("a", Some("A"), true),
        balance_of("b", Some("B"), true),
        balance_of("c", Some("C"), true),
    ];
    let logs = vec![logged(Some("a")), logged(Some("c"))];
    let unit = |live: Vec<LiveRequestSnapshot>| {
        tray_balance(&live, &upstreams, &logs, &snapshots).unwrap().1
    };
    assert_eq!(unit(vec![request(Some("first"), false), request(Some("second"), false)]), "B");
    assert_eq!(unit(vec![request(Some("second"), false), request(Some("first"), true)]), "B");
    assert_eq!(unit(vec![request(Some("second"), true)]), "A");
    assert_eq!(unit(vec![request(Some("second"), false), request(Some("gone"), false)]), "A");
    assert_eq!(unit(vec![request(Some("second"), false), request(None, false)]), "A");
}

#[test]
fn update_bytes_are_readable() {
    assert_eq!(format_bytes(512, None), "512 B");
    assert_eq!(format_bytes(1536, None), "1.5 KB");
    assert_eq!(format_bytes(1_048_576, Some(3_145_728)), "1.0 MB / 3.0 MB");
    assert_eq!(download_line(512, None), ("已下载 512 B".to_string(), false));
    assert_eq!(download_line(512, Some(0)), ("已下载 512 B".to_string(), false));
    assert_eq!(download_line(512, Some(1024)), ("512 B / 1.0 KB".to_string(), true));
}

#[test]
fn update_state_is_told_apart() {
    let info = UpdateInfo {
        tag: "v1".to_string(),
        body: String::new(),
        html_url: String::new(),
    };
    let available = UpdateState::Available(info);
    assert_eq!(footer(&available, "v0"), ("新版本 v1 可用".to_string(), true));
    assert_eq!(window_line(&available), "最新版本: v1");
    assert_eq!(footer(&UpdateState::ReadyToRestart, "v0").0, "更新已就绪, 点击查看");
    assert_eq!(footer(&UpdateState::Idle, "v0"), ("v0".to_string(), false));
    assert_eq!(window_line(&UpdateState::UpToDate), "已是最新版本.");
    let failed = UpdateState::Failed("dns".to_string());
    assert_eq!(window_line(&failed), "更新失败: dns");
    assert!(can_check_again(&failed));
    assert!(!can_check_again(&UpdateState::Checking));
    assert_eq!(auto_check_status(true), "已开启启动时自动检查更新");
    assert_eq!(skipped_status("v1"), "已跳过版本 v1");
    assert_eq!(
        release_page_status(Err("no browser".to_string())),
        "打开 Release 页失败: no browser"
    );
}
