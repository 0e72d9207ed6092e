use codex_switch::clock::{CivilTime, Timestamp};
use codex_switch::dashboard::{
    balance_button, balance_button_label, base_url_line, database_total_bytes, format_bytes,
    generate_local_key, local_key_with, price_button, price_cache_age_text, provider_cost_text,
    BalanceButton, KeyActions, KeyOutcome, LocalKey,
};
use codex_switch::elide::{elide_to_head, elide_to_tail};
use codex_switch::float64::Double;
use codex_switch::guide::{
    cell_text, column_count, is_md_table_separator, parse_guide, parse_md_row, strip_md_inline,
    GuideBlock,
};
use codex_switch::http::{display_version, reason_text, user_agent};
use codex_switch::icns::{icon_sizes, write_icns, Chunk, IcnsError};
use codex_switch::json;
use codex_switch::model_capabilities::{model_modality_label, ModelCapabilityCache};
use codex_switch::model_test::har::{har_document, model_test_record_har_entry};
use codex_switch::model_test::{
    entry_line, first_token_text, format_day, live_display, model_test_custom_upstream, record_row,
    record_time, ModelTestKind, ModelTestOutcome, ModelTestTarget, ModelTestUi, Sending, StreamPart, TargetMode,
};
use codex_switch::models::{
    BalanceProvider, DatabaseInfo, QuotaSnapshot, TokenUsage, Upstream, WireApi,
};
use codex_switch::peers::{
    bool_setting, discovered_standing, node_display_name, pair_direct_peer, paired_status,
    pairing_line, peer_addresses_differ, peer_line, LndActions, LndSettings, PairRequest, Pairing,
    PeerDiscoverySource, PeerNode, Standing,
};
use codex_switch::presets::{
    check_presets, escape_rust_str, is_safe_id, is_safe_stem, normalize_prefer_url,
    parse_directive, parse_preset_source, rust_str_slice, DuplicateError, PresetError, PresetMeta,
};
use codex_switch::pricing_script::{
    format_optional_cost, join_lines, parse_i64_or_zero, preview_status, preview_status_with,
    preview_upstream_label, saved_status, Preview, PricingScriptUi, WindowActions,
};
use codex_switch::quota::{fmt_percent, quota_line};
use codex_switch::tokens::UsdCnyRate;

const SECOND: u128 = 1_000_000_000;

fn double(x: f64) -> Double {
    Double::from_bits(x.to_bits())
}

fn at(seconds: i64) -> Timestamp {
    Timestamp { seconds, nanos: 0 }
}

fn relay(id: &str, name: &str) -> Upstream {
    Upstream::relay(
        id.to_string(),
        at(0),
        name.to_string(),
        "https://relay.example/v1".to_string(),
        WireApi::Responses,
        true,
        BalanceProvider::Auto,
    )
}

fn outcome(status: i64, error: Option<&str>) -> ModelTestOutcome {
    ModelTestOutcome {
        upstream_name: Some("relay".to_string()),
        endpoint: "/v1/responses".to_string(),
        model: "gpt-5".to_string(),
        stream: true,
        status,
        error: error.map(str::to_string),
        duration_ms: 120,
        first_token_ms: Some(40),
        usage: TokenUsage {
            input_tokens: 5,
            output_tokens: 6,
            total_tokens: 11,
            ..Default::default()
        },
        estimated_cost_usd: None,
        output_text: "pong".to_string(),
        reasoning_text: String::new(),
        raw: None,
    }
}

#[test]
fn test_bench_sends_and_records_a_request() {
    let upstreams = vec![relay("a", "A")];
    let mut ui = ModelTestUi::new();
    ui.settle_selection(&upstreams);
    assert_eq!(ui.selected_upstream_id.as_deref(), Some("a"));
    let refused = ui.send_model_test_at(&upstreams, true, "id".to_string(), at(0), SECOND);
    match refused {
        Sending::Refused(message) => assert_eq!(message, "请填写模型名"),
        _ => panic!("a request without a model is refused"),
    }
    ui.settings.model_input = " gpt-5 ".to_string();
    match ui.send_model_test_at(&upstreams, true, "id".to_string(), at(0), SECOND) {
        Sending::Sent { target, params } => {
            assert!(matches!(target, ModelTestTarget::Direct { .. }));
            assert_eq!(params.model, "gpt-5");
            assert_eq!(params.max_tokens, 64);
            assert_eq!(params.timeout_seconds, 120);
            assert_eq!(params.messages.len(), 1);
            assert_eq!(params.messages[0].content, "请只回复: pong");
        }
        _ => panic!("the request is sent"),
    }
    assert!(ui.busy());
    ui.handle_model_test_delta(ModelTestKind::Single, StreamPart::Text("po".to_string()));
    ui.handle_model_test_delta(ModelTestKind::Single, StreamPart::Text("ng".to_string()));
    assert_eq!(ui.single_result.live_text, "pong");
    let said = ui.handle_model_test_finished(ModelTestKind::Single, outcome(200, None), at(9));
    assert_eq!(said, "测试完成: 120 ms, 首 token 40 ms");
    assert!(!ui.busy());
    assert_eq!(ui.history.len(), 1);
    assert_eq!(ui.history[0].total_tokens, 11);
    let said = ui.finish_model_test(ModelTestKind::Single, outcome(500, Some("boom")));
    assert!(said.starts_with("测试失败: "));
    assert!(ui.history[1].finished_at.seconds > 1_700_000_000);
    assert_eq!(ui.clear_history(), "已清除 2 条测试记录");
}

#[test]
fn test_bench_names_its_problems() {
    let upstreams: Vec<Upstream> = Vec::new();
    let mut ui = ModelTestUi::new();
    ui.settings.model_input = "m".to_string();
    ui.target_mode = TargetMode::Scheduler;
    assert_eq!(
        ui.dispatch_model_test(&upstreams, false, "id".to_string(), at(0)).err().unwrap(),
        "本地代理未启动, 请先在仪表盘启动服务"
    );
    ui.target_mode = TargetMode::Direct;
    assert_eq!(
        ui.dispatch_model_test(&upstreams, true, "id".to_string(), at(0)).err().unwrap(),
        "请选择要测试的上游"
    );
    ui.target_mode = TargetMode::Custom;
    assert_eq!(
        ui.dispatch_model_test(&upstreams, true, "id".to_string(), at(0)).err().unwrap(),
        "请填写临时上游的 Base URL"
    );
    assert!(model_test_custom_upstream(" ", WireApi::Responses).is_err());
    let custom = model_test_custom_upstream(" https://x.example ", WireApi::Responses).unwrap();
    assert_eq!(custom.base_url, "https://x.example");
    assert_eq!(custom.id.len(), 36);
    let parameters = &mut ui.settings;
    parameters.max_tokens_input = "0".to_string();
    assert_eq!(
        parameters.build_model_test_params(Vec::new()).err().unwrap(),
        "max tokens 需要为正整数"
    );
    parameters.max_tokens_input = "1".to_string();
    parameters.timeout_input = "601".to_string();
    assert_eq!(
        parameters.build_model_test_params(Vec::new()).err().unwrap(),
        "超时需要为 1-600 的整数秒"
    );
    ui.prompt = " ".to_string();
    match ui.send_model_test_at(&upstreams, true, "id".to_string(), at(0), SECOND) {
        Sending::Refused(message) => assert_eq!(message, "请填写测试 prompt"),
        _ => panic!("an empty prompt is refused"),
    }
}

#[test]
fn test_bench_chats() {
    let upstreams = vec![relay("a", "A")];
    let mut ui = ModelTestUi::new();
    ui.choose_upstream("a".to_string());
    ui.settings.model_input = "m".to_string();
    ui.chat_input = " hello ".to_string();
    match ui.send_model_test_chat_at(&upstreams, true, "id".to_string(), at(0), SECOND) {
        Sending::Sent { params, .. } => assert_eq!(params.messages[0].content, "hello"),
        _ => panic!("the message is sent"),
    }
    assert!(!ui.can_clear_chat());
    ui.handle_model_test_finished(ModelTestKind::Chat, outcome(200, None), at(9));
    assert_eq!(ui.chat_messages.len(), 2);
    assert_eq!(ui.chat_messages[1].text, "pong");
    assert!(ui.can_clear_chat());
    ui.clear_chat();
    assert!(ui.chat_messages.is_empty());
    let (found, said) = ui.fetch_model_test_models(&upstreams);
    assert_eq!(found.unwrap().id, "a");
    assert_eq!(said, Some("正在拉取上游 A 的模型列表".to_string()));
    let said = ui.handle_model_test_models_fetched("a".to_string(), Ok(vec!["m".to_string()]));
    assert_eq!(said, "已获取 1 个模型");
    assert!(ui.offers_models());
    let said = ui.handle_model_test_models_fetched("a".to_string(), Err("dns".to_string()));
    assert_eq!(said, "拉取模型列表失败: dns");
}

#[test]
fn test_records_are_shown_and_exported() {
    let mut ui = ModelTestUi::new();
    ui.handle_model_test_finished(ModelTestKind::Single, outcome(200, None), at(1_700_000_000));
    let record = &ui.history[0];
    let row = record_row(record);
    assert_eq!(row.upstream, "relay");
    assert!(row.success);
    assert_eq!(row.duration, "120 ms");
    assert_eq!(row.first_token, "40 ms");
    assert_eq!(entry_line(record, "11"), "耗时 120 ms, 首 token 40 ms, 总 tokens 11");
    assert_eq!(first_token_text(None), "未返回");
    assert_eq!(live_display("", true), "(等待输出...)");
    let entry = model_test_record_har_entry(record);
    assert_eq!(entry.get_str("_model").unwrap(), "gpt-5");
    assert_eq!(entry.get_str("_upstream").unwrap(), "relay");
    let started = entry.get_str("startedDateTime").unwrap().clone();
    assert_eq!(started.len(), 25);
    let shown = record_time(record);
    assert_eq!(shown.len(), 14);
    assert_eq!(&started[5..10], &shown[..5]);
    assert_eq!(&started[10..11], "T");
    assert_eq!(&started[11..19], &shown[6..]);
    assert!(["2023-11-13", "2023-11-14", "2023-11-15"].contains(&&started[..10]));
    let text = json::to_text(&har_document(vec![entry]));
    assert!(text.contains("\"version\":\"1.2\""));
    assert!(text.contains("\"statusText\":\"OK\""));
    assert!(text.contains("\"_total_tokens\":11"));
}

#[test]
fn status_reasons_are_the_known_ones() {
    assert_eq!(reason_text(404), "Not Found");
    assert_eq!(reason_text(599), "");
    assert_eq!(reason_text(-1), "");
    assert_eq!(display_version("  "), "dev-build");
    assert_eq!(display_version("v1"), "v1");
    assert_eq!(user_agent(" v1 "), "codex-switch/v1");
    assert_eq!(user_agent(""), "codex-switch/dev-build");
}

#[test]
fn pricing_trial_counts_what_was_typed() {
    let mut ui = PricingScriptUi::new();
    ui.open_window(true, "script".to_string(), None);
    assert!(ui.open);
    assert_eq!(ui.compile_message, "编译通过");
    ui.refresh_pricing_compile_message(Some("line 1".to_string()));
    assert!(!ui.compile_ok);
    ui.fill_in(String::new(), None);
    assert_eq!(ui.compile_message, "空脚本将使用内置公式");
    let usage = ui.preview_usage();
    assert_eq!(usage.input_tokens, 1000);
    assert_eq!(usage.output_tokens, 200);
    assert_eq!(ui.preview_model_name().as_deref(), Some("gpt-5-codex"));
    assert_eq!(parse_i64_or_zero(" 7 "), 7);
    assert_eq!(parse_i64_or_zero("x"), 0);
    ui.show_preview(&Preview {
        script_cost: Some(double(0.5)),
        builtin_cost: None,
        script_error: None,
        runtime_error: None,
        logs: vec!["a".to_string(), "b".to_string()],
    });
    assert_eq!(ui.preview_line(), Some("脚本: 0.500000 USD    内置: 无".to_string()));
    assert_eq!(ui.preview_logs, "a\nb");
    ui.show_preview(&Preview {
        script_cost: None,
        builtin_cost: None,
        script_error: Some("bad".to_string()),
        runtime_error: None,
        logs: Vec::new(),
    });
    assert_eq!(ui.preview_script, "失败: bad");
    ui.after_actions(WindowActions {
        save: false,
        cancel: true,
        open: true,
    });
    assert!(!ui.open);
    assert_eq!(format_optional_cost(Some(double(1.0))), "1.000000 USD");
    assert_eq!(join_lines(&vec!["x".to_string()]), "x");
    assert_eq!(saved_status(true, true), "计价脚本已保存并启用");
    assert_eq!(preview_upstream_label(&Some("a".to_string()), &vec![relay("a", "A")]), "A");
}

#[test]
fn the_pricing_window_closes_once_saved() {
    let mut ui = PricingScriptUi::new();
    ui.open_window(true, "script".to_string(), None);
    ui.saved(false);
    assert!(ui.open);
    ui.after_actions(WindowActions { save: true, cancel: false, open: false });
    assert!(ui.open);
    ui.saved(true);
    assert!(!ui.open);
    assert_eq!(ui.source, "script");
}

#[test]
fn a_record_tells_its_day() {
    let t = CivilTime { year: 2024, month: 3, day: 9, hour: 5, minute: 6, second: 7 };
    assert_eq!(format_day(t), "03-09 05:06:07");
}

#[test]
fn parts_of_a_second_are_written_as_needed() {
    let mut ui = ModelTestUi::new();
    for (nanos, part) in [(500_000_000, ".500"), (1_000, ".000001"), (1, ".000000001")] {
        let finished = Timestamp { seconds: 1_700_000_000, nanos };
        ui.handle_model_test_finished(ModelTestKind::Single, outcome(200, None), finished);
        let record = ui.history.iter().find(|record| record.finished_at == finished).unwrap();
        let entry = model_test_record_har_entry(record);
        let started = entry.get_str("startedDateTime").unwrap().clone();
        assert_eq!(&started[19..19 + part.len()], part);
        assert_eq!(started.len(), 25 + part.len());
    }
}

#[test]
fn costs_are_exported_to_the_last_digit() {
    for (cost, written) in [
        (0.1 + 0.2, "0.30000000000000004"),
        (0.012345678901234567, "0.012345678901234567"),
        (9007199254740993.5, "9007199254740994.0"),
        (1.0, "1.0"),
        (-0.0, "-0.0"),
        (5e-324, "5e-324"),
        (1.7976931348623157e308, "1.7976931348623157e+308"),
        (f64::NAN, "null"),
        (f64::INFINITY, "null"),
    ] {
        let mut ui = ModelTestUi::new();
        let mut done = outcome(200, None);
        done.estimated_cost_usd = Some(double(cost));
        ui.handle_model_test_finished(ModelTestKind::Single, done, at(1_700_000_000));
        let text = json::to_text(&model_test_record_har_entry(&ui.history[0]));
        assert!(text.contains(&format!("\"_estimated_cost_usd\":{written}")), "{text}");
    }
    let mut ui = ModelTestUi::new();
    ui.handle_model_test_finished(ModelTestKind::Single, outcome(200, None), at(1_700_000_000));
    let text = json::to_text(&model_test_record_har_entry(&ui.history[0]));
    assert!(!text.contains("_estimated_cost_usd"));
}

#[test]
fn exact_texts_read_back() {
    for value in [0.1, -2.5, 0.0, 1e300, 5e-324, 123456789.0] {
        let text = double(value).to_exact_text();
        assert_eq!(text.parse::<f64>(), Ok(value));
        assert_eq!(Double::from_text(&text), Some(double(value)));
    }
    assert_eq!(double(-2.5).to_exact_text().parse::<f64>(), Ok(-2.5));
}

#[test]
fn numbers_are_written_as_they_were_read() {
    let text = "[18446744073709551615,-9223372036854775808,0.30000000000000004,1.5e+30,7]";
    let read = json::parse(text.as_bytes()).unwrap();
    assert_eq!(json::to_text(&read), text);
}

#[test]
fn pricing_trial_tells_when_it_ran() {
    let local = CivilTime {
        year: 2024,
        month: 5,
        day: 6,
        hour: 7,
        minute: 8,
        second: 9,
    };
    let rate = UsdCnyRate {
        rate: double(7.1),
        fetched_at: 0,
    };
    assert_eq!(
        preview_status_with("2024-05-05T23:08:09+00:00", local, Some(rate)),
        "试算时间 2024-05-05T23:08:09+00:00 (本地 07:08 时), 1 USD = 7.1000 CNY"
    );
    let shown = preview_status(at(1_700_000_000), None);
    assert!(shown.starts_with("试算时间 2023-11-14T22:13:20+00:00 (本地 "));
    assert!(shown.ends_with("无汇率缓存"));
}

fn peer(node_id: &str, addresses: &[&str]) -> PeerNode {
    PeerNode {
        node_id: node_id.to_string(),
        display_name: "peer".to_string(),
        fingerprint: "ff".to_string(),
        source: PeerDiscoverySource::Mdns,
        addresses: addresses.iter().map(|a| a.to_string()).collect(),
        canonical: addresses.iter().map(|a| Some(a.to_string())).collect(),
    }
}

#[test]
fn only_the_paired_node_moves() {
    let peers = vec![peer("n", &["https://a:1"])];
    assert_eq!(discovered_standing(&peers, &peer("m", &["https://a:1"])), Standing::New);
    assert_eq!(discovered_standing(&peers, &peer("n", &["https://a:1"])), Standing::Paired);
    assert_eq!(discovered_standing(&peers, &peer("n", &["https://b:1"])), Standing::Moved);
    assert!(peer_addresses_differ(
        &peer("n", &["https://a:1", "https://b:1"]),
        &peer("n", &["https://b:1", "https://a:1"]),
    ));
    assert_eq!(peer_line(&peers[0]), "peer  ff  mDNS  https://a:1");
    assert_eq!(pairing_line("p", "ff", "n"), "p  ff  n");
}

#[test]
fn peers_are_paired_one_at_a_time() {
    assert!(matches!(pair_direct_peer(true, "a", ""), Pairing::Busy));
    assert!(matches!(pair_direct_peer(false, " ", ""), Pairing::NoAddress));
    match pair_direct_peer(false, " a ", " ") {
        Pairing::Asked(PairRequest {
            address,
            fingerprint,
        }) => {
            assert_eq!(address, "a");
            assert_eq!(fingerprint, None);
        }
        _ => panic!("the node is asked"),
    }
    assert_eq!(paired_status("p"), "已配对 p");
    assert_eq!(bool_setting(true), "true");
    assert_eq!(node_display_name(" me "), Ok("me".to_string()));
    assert_eq!(node_display_name(" "), Err("节点显示名不能为空"));
    let mut lnd = LndSettings {
        url: "u".to_string(),
        token: "t".to_string(),
        domain: "d".to_string(),
        open: false,
        edited_url: String::new(),
        edited_token: String::new(),
        edited_domain: String::new(),
    };
    lnd.open_window();
    assert_eq!(lnd.edited_url, "u");
    lnd.edited_url = " v ".to_string();
    let values = lnd.values();
    assert_eq!(values.url, "v");
    lnd.stored(values, true);
    assert_eq!(lnd.url, "v");
    lnd.open_window();
    lnd.after_actions(LndActions {
        save: false,
        cancel: true,
        open: true,
    });
    assert!(!lnd.open);
}

#[test]
fn local_key_is_replaced_when_confirmed() {
    assert_eq!(local_key_with("x"), "cs-x");
    assert_eq!(generate_local_key().len(), 39);
    assert_ne!(generate_local_key(), generate_local_key());
    let mut local = LocalKey {
        key: "old".to_string(),
        copied_at: Some(SECOND),
        refresh_open: false,
        refresh_value: String::new(),
    };
    assert!(local.copy_feedback(2 * SECOND).is_some());
    assert!(local.copy_feedback(3 * SECOND).is_none());
    local.open_refresh("cs-new".to_string());
    let outcome = local.after_actions(KeyActions {
        confirm: true,
        cancel: false,
        open: true,
    });
    match outcome {
        KeyOutcome::Store(key) => local.stored(key),
        _ => panic!("the new key is stored"),
    }
    assert_eq!(local.key, "cs-new");
    local.open_refresh("  ".to_string());
    let outcome = local.after_actions(KeyActions {
        confirm: true,
        cancel: false,
        open: true,
    });
    assert!(matches!(outcome, KeyOutcome::Blank));
}

#[test]
fn dashboard_numbers_are_readable() {
    assert_eq!(format_bytes(1023), "1023 B");
    assert_eq!(format_bytes(1024), "1.0 KB");
    assert_eq!(format_bytes(1_572_864), "1.5 MB");
    assert_eq!(format_bytes(3_221_225_472), "3.0 GB");
    let info = DatabaseInfo {
        main_file_bytes: 1,
        wal_file_bytes: 2,
        shm_file_bytes: 3,
        ..Default::default()
    };
    assert_eq!(database_total_bytes(&info), 6);
    assert_eq!(price_cache_age_text(None), "尚未缓存价格");
    assert_eq!(price_cache_age_text(Some(59)), "刚刚更新");
    assert_eq!(price_cache_age_text(Some(120)), "2 分钟前更新");
    assert_eq!(price_cache_age_text(Some(7_200)), "2 小时前更新");
    assert_eq!(price_cache_age_text(Some(172_800)), "2 天前更新");
    assert_eq!(price_button(true, 0).1, "获取中");
    assert_eq!(provider_cost_text(None), "无价格缓存");
    assert_eq!(provider_cost_text(Some(double(1.5))), "$1.50");
    let upstreams = vec![relay("a", "A")];
    assert_eq!(balance_button(&upstreams, "a", true), BalanceButton::Pending);
    assert_eq!(balance_button(&upstreams, "x", true), BalanceButton::Missing);
    assert_eq!(balance_button_label(BalanceButton::Ready), "刷新余额");
    assert_eq!(base_url_line("127.0.0.1:1"), "Base URL: http://127.0.0.1:1/v1");
}

#[test]
fn quota_is_told_in_percent() {
    assert_eq!(fmt_percent(None), "未知");
    assert_eq!(fmt_percent(Some(double(12.34))), "12.3");
    let snapshot = QuotaSnapshot {
        upstream_id: "a".to_string(),
        used_5h_percent: Some(double(10.0)),
        used_7d_percent: None,
        ..Default::default()
    };
    assert_eq!(quota_line(&snapshot), "5h: 10.0%, 7d: 未知%");
}

#[test]
fn long_texts_are_elided() {
    assert_eq!(elide_to_tail("abc", true, &vec![false, false, false]), None);
    assert_eq!(
        elide_to_tail("abc", false, &vec![false, true, true]),
        Some("…bc".to_string())
    );
    assert_eq!(
        elide_to_head("abc", false, &vec![true, true, false]).unwrap().chars().last(),
        Some('…')
    );
}

#[test]
fn guide_is_made_of_blocks() {
    let source = "# Title\n\ntext `x`\n\n```\n\ncode\n```\n| a | b |\n|---|:-:|\n| 1 | 2 |\n- item\n## Part";
    let blocks = parse_guide(source);
    assert_eq!(blocks.len(), 8);
    assert!(matches!(&blocks[0], GuideBlock::Title(t) if t == "Title"));
    assert!(matches!(&blocks[1], GuideBlock::Gap));
    assert!(matches!(&blocks[2], GuideBlock::Paragraph(t) if t == "text x"));
    assert!(matches!(&blocks[4], GuideBlock::Code(t) if t == "code"));
    match &blocks[5] {
        GuideBlock::Table(rows) => {
            assert_eq!(rows.len(), 2);
            assert_eq!(column_count(rows), 2);
            assert_eq!(cell_text(&rows[1], 1), "2");
            assert_eq!(cell_text(&rows[1], 5), "");
        }
        _ => panic!("rows are a table"),
    }
    assert!(matches!(&blocks[6], GuideBlock::Bullet(t) if t == "item"));
    assert!(matches!(&blocks[7], GuideBlock::Heading(t) if t == "Part"));
    assert_eq!(parse_md_row("| a | b |"), vec!["a".to_string(), "b".to_string()]);
    assert!(is_md_table_separator(&parse_md_row("|---|:-:|")));
    assert_eq!(strip_md_inline("a `b`"), "a b");
}

#[test]
fn preset_head_is_read() {
    let source = "// @label Night rate\n// @prefer https://Relay.example/\nlet x = 1;\n";
    let (meta, body) = parse_preset_source(source, "night_rate").unwrap();
    assert_eq!(meta.id, "night-rate");
    assert_eq!(meta.label, "Night rate");
    assert_eq!(meta.prefer, vec!["https://Relay.example/".to_string()]);
    assert_eq!(body, "let x = 1;\n");
    assert_eq!(
        parse_directive("label: Night rate"),
        ("label".to_string(), "Night rate".to_string())
    );
    assert!(matches!(parse_preset_source("// @label\n", "a"), Err(PresetError::EmptyLabel)));
    assert!(matches!(parse_preset_source("// @id\n", "a"), Err(PresetError::EmptyId)));
    assert!(matches!(parse_preset_source("// @id A B\n", "a"), Err(PresetError::InvalidId(_))));
    assert!(matches!(parse_preset_source("// @prefer\n", "a"), Err(PresetError::EmptyPrefer)));
    assert!(matches!(
        parse_preset_source("// @prefer ftp://x\n", "a"),
        Err(PresetError::PreferNotHttp)
    ));
    assert!(matches!(
        parse_preset_source("// @other x\n", "a"),
        Err(PresetError::UnknownDirective(_))
    ));
    assert!(matches!(
        parse_preset_source("let x = 1;\n", ""),
        Err(PresetError::InvalidPresetId(_))
    ));
    assert!(is_safe_id("a-1"));
    assert!(!is_safe_id("a_1"));
    assert!(!is_safe_id(""));
    assert!(is_safe_stem("a_1"));
}

fn meta(id: &str, prefer: &[&str]) -> PresetMeta {
    PresetMeta {
        id: id.to_string(),
        label: String::new(),
        prefer: prefer.iter().map(|p| p.to_string()).collect(),
    }
}

#[test]
fn presets_are_told_apart() {
    assert_eq!(check_presets(&vec![meta("a", &["https://x"]), meta("b", &["https://y"])]), Ok(()));
    assert_eq!(check_presets(&vec![meta("default", &[])]), Err(DuplicateError::Id(0)));
    assert_eq!(
        check_presets(&vec![meta("a", &[]), meta("a", &[])]),
        Err(DuplicateError::Id(1))
    );
    assert_eq!(
        check_presets(&vec![meta("a", &["https://x/"]), meta("b", &["https://y", "HTTPS://X"])]),
        Err(DuplicateError::Prefer(1, 1))
    );
    assert_eq!(normalize_prefer_url(" HTTPS://X// "), "https://x");
    assert_eq!(escape_rust_str("a\"\\\n"), "a\\\"\\\\\\n");
    assert_eq!(
        rust_str_slice(&vec!["a".to_string(), "b".to_string()]),
        "&[\"a\", \"b\"]"
    );
}

#[test]
fn icon_file_tells_its_length() {
    let chunks = vec![Chunk {
        kind: "icp4".to_string(),
        data: vec![1, 2, 3],
    }];
    let file = write_icns(&chunks).unwrap();
    assert_eq!(file, b"icns\x00\x00\x00\x13icp4\x00\x00\x00\x0b\x01\x02\x03".to_vec());
    let bad = vec![Chunk {
        kind: "icp".to_string(),
        data: Vec::new(),
    }];
    assert_eq!(write_icns(&bad), Err(IcnsError::InvalidType(0)));
    assert_eq!(icon_sizes().len(), 10);
}

#[test]
fn modality_is_known_from_the_cache() {
    let mut cache = ModelCapabilityCache::new();
    cache.extend("u", vec![("m".to_string(), true)]);
    let known = model_modality_label(&cache, Some("u"), Some("m"));
    assert_ne!(known, model_modality_label(&cache, Some("u"), Some("n")));
    assert_ne!(known, model_modality_label(&cache, None, Some("m")));
}
