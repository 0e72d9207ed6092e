use codex_switch::clock::Timestamp;
use codex_switch::float64::Double;
use codex_switch::models::{
    ApiKeyAuthScheme, BalanceProvider, BalanceSnapshot, ErrorRetryPolicy, ScheduleGroup,
    ScheduleMode, ScheduleRouteTargetKind, UnknownModalityPolicy, Upstream,
    UpstreamBalanceAlertSettings, UpstreamCacheKeepaliveSettings, UpstreamKind, WireApi,
};
use codex_switch::relay_form::{added_status, RelayForm};
use codex_switch::scheduler::{
    blank_rule, choose_target, chosen_group_label, chosen_upstream_label, default_rule,
    is_deletable, member_label, mode_label, plan_save, plan_save_now, prepare_new_group,
    prepare_schedule_group_editor, route_max_hops, schedule_group_line, schedule_group_summary,
    target_kind_label, ScheduleGroupEditor,
};
use codex_switch::upstream_detection::{detect_upstream, DetectedKind};
use codex_switch::upstream_editor::{
    apply_detection, balance_providers, base_url_changed, choose_messages_api, detected_label,
    detected_provider_label, error_retry_policies, error_retry_policy_label, is_exportable,
    join_names, refresh_switched, save_upstream_editor, uses_newapi_balance, UpstreamEditor,
};
use codex_switch::upstreams::{
    balance_alert_cell, balance_cell, cache_keepalive_label, delete_question, export_status, find_upstream,
    format_balance_snapshot, import_status,
};

fn at(seconds: i64) -> Timestamp {
    Timestamp { seconds, nanos: 0 }
}

fn double(x: f64) -> Double {
    Double::from_bits(x.to_bits())
}

fn relay(id: &str, name: &str) -> Upstream {
    Upstream::relay(
        id.to_string(),
        at(0),
        name.to_string(),
        "https://relay.example/v1".to_string(),
        WireApi::Responses,
        true,
        BalanceProvider::Auto,
    )
}

fn editor() -> UpstreamEditor {
    UpstreamEditor::new(
        relay("u", "relay"),
        UpstreamCacheKeepaliveSettings::new("u".to_string()),
        UpstreamBalanceAlertSettings::new("u".to_string()),
    )
}

#[test]
fn saved_editor_is_trimmed() {
    let mut form = editor();
    form.upstream.name = "  relay ".to_string();
    form.upstream.proxy_url = Some("  ".to_string());
    form.api_key = " sk ".to_string();
    form.min_cacheable_tokens_input = "2k".to_string();
    form.max_cacheable_tokens_input = "1M".to_string();
    let edit = save_upstream_editor(&form).unwrap();
    assert_eq!(edit.upstream.name, "relay");
    assert_eq!(edit.upstream.proxy_url, None);
    assert_eq!(edit.credentials, vec![("api_key", "sk".to_string())]);
    assert_eq!(edit.cache_keepalive.min_cacheable_tokens, 2_000);
    assert_eq!(edit.cache_keepalive.max_cacheable_tokens, 1_000_000);
}

#[test]
fn saved_editor_keeps_how_requests_are_forwarded() {
    let mut form = editor();
    assert_eq!(form.upstream.price_multiplier, double(1.0));
    assert_eq!(form.upstream.error_retry_policy, ErrorRetryPolicy::Off);
    assert!(!form.upstream.strip_multimodal_for_text_models);
    form.upstream.price_multiplier = double(0.35);
    form.upstream.error_retry_policy = ErrorRetryPolicy::Transient;
    form.upstream.strip_multimodal_for_text_models = true;
    form.upstream.unknown_modality_policy = UnknownModalityPolicy::Multimodal;
    let edit = save_upstream_editor(&form).unwrap();
    assert_eq!(edit.upstream.price_multiplier, double(0.35));
    assert_eq!(edit.upstream.error_retry_policy, ErrorRetryPolicy::Transient);
    assert!(edit.upstream.strip_multimodal_for_text_models);
    assert_eq!(edit.upstream.unknown_modality_policy, UnknownModalityPolicy::Multimodal);
    assert_eq!(
        error_retry_policies(),
        vec![ErrorRetryPolicy::Off, ErrorRetryPolicy::Transient, ErrorRetryPolicy::All]
    );
}

#[test]
fn editor_problems_are_named() {
    let mut form = editor();
    form.upstream.name = " ".to_string();
    assert_eq!(save_upstream_editor(&form).err().unwrap(), "上游名称不能为空");
    let mut form = editor();
    form.upstream.base_url = " ".to_string();
    assert_eq!(save_upstream_editor(&form).err().unwrap(), "Base URL 不能为空");
    let mut form = editor();
    form.upstream.proxy_url = Some("::".to_string());
    assert!(save_upstream_editor(&form).err().unwrap().starts_with("代理 URL 无效: "));
    let mut form = editor();
    form.balance_alert.enabled = true;
    form.balance_alert.alert_enabled = true;
    form.balance_alert.threshold = double(-1.0);
    assert_eq!(
        save_upstream_editor(&form).err().unwrap(),
        "余额提醒阈值必须是大于等于 0 的数字"
    );
    let mut form = editor();
    form.min_cacheable_tokens_input = "x".to_string();
    assert!(save_upstream_editor(&form).err().unwrap().starts_with("最小缓存 tokens 无效: "));
    let mut form = editor();
    form.max_cacheable_tokens_input = "x".to_string();
    assert!(save_upstream_editor(&form).err().unwrap().starts_with("最大缓存 tokens 无效: "));
}

#[test]
fn detected_settings_are_taken_over() {
    let mut form = editor();
    form.upstream.base_url = "https://api.anthropic.com".to_string();
    let detected = detect_upstream(&form.upstream.base_url);
    apply_detection(&mut form, detected);
    assert_eq!(form.upstream.wire_api, WireApi::AnthropicMessages);
    assert!(form.apply_status.starts_with("已按识别结果改写: "));
    apply_detection(&mut form, detected);
    assert_eq!(form.apply_status, "当前设置与识别结果一致");
    base_url_changed(&mut form);
    assert_eq!(form.apply_status, "");
    let mut form = editor();
    choose_messages_api(&mut form);
    assert_eq!(form.upstream.api_key_auth_scheme, ApiKeyAuthScheme::XApiKey);
    assert!(!form.upstream.supports_compact);
    assert_eq!(detected_label(DetectedKind::Unknown), None);
    assert!(detected_label(DetectedKind::Anthropic).unwrap().starts_with("识别: "));
    assert_eq!(detected_provider_label(None), None);
    assert_eq!(join_names(&vec!["a", "b", "c"]), "a, b, c");
}

#[test]
fn editor_settings_have_names() {
    assert_eq!(error_retry_policy_label(ErrorRetryPolicy::Off), "关闭");
    assert_eq!(error_retry_policy_label(ErrorRetryPolicy::Transient), "仅临时错误");
    assert_eq!(error_retry_policy_label(ErrorRetryPolicy::All), "全部上游错误");
    assert!(is_exportable(UpstreamKind::RelayApiKey));
    assert!(!is_exportable(UpstreamKind::PeerNode));
    assert!(balance_providers().contains(&BalanceProvider::NewApi));
    let mut upstream = relay("u", "n");
    upstream.balance_provider = BalanceProvider::NewApi;
    assert!(uses_newapi_balance(&upstream));
    let mut settings = UpstreamBalanceAlertSettings::new("u".to_string());
    settings.enabled = false;
    settings.alert_enabled = true;
    refresh_switched(&mut settings);
    assert!(!settings.alert_enabled);
}

#[test]
fn touched_relay_settings_stay() {
    let mut form = RelayForm::new_empty();
    form.base_url = "https://api.anthropic.com".to_string();
    form.apply_relay_detection_hint();
    assert_eq!(form.wire_api, WireApi::AnthropicMessages);
    let mut form = RelayForm::new_empty();
    form.choose_wire_api(WireApi::ChatCompletions);
    form.choose_filter(true);
    form.base_url = "https://api.anthropic.com".to_string();
    form.apply_relay_detection_hint();
    assert_eq!(form.wire_api, WireApi::ChatCompletions);
    assert!(form.filter_chat_server_tools);
    form.choose_auth_scheme(ApiKeyAuthScheme::XApiKey);
    assert_eq!(form.api_key_auth_scheme, ApiKeyAuthScheme::XApiKey);
}

#[test]
fn relay_is_made_from_its_form() {
    let mut form = RelayForm::new_empty();
    assert_eq!(
        form.relay_at("id".to_string(), at(1)).err().unwrap(),
        "名称, Base URL 和 API Key 都不能为空"
    );
    form.name = " relay ".to_string();
    form.base_url = " https://relay.example/v1 ".to_string();
    form.api_key = " sk ".to_string();
    form.proxy_url = "::".to_string();
    assert!(form.add_relay().err().unwrap().starts_with("代理 URL 无效: "));
    form.proxy_url = String::new();
    let made = form.relay_at("id".to_string(), at(1)).unwrap();
    assert_eq!(made.upstream.id, "id");
    assert_eq!(made.upstream.name, "relay");
    assert_eq!(made.upstream.base_url, "https://relay.example/v1");
    assert_eq!(made.api_key, "sk");
    assert_eq!(made.detected, DetectedKind::Unknown);
    assert_eq!(added_status(made.detected), "已添加 API Key 上游");
    assert_eq!(form.add_relay().unwrap().upstream.id.len(), 36);
    form.clear_added();
    assert_eq!(form.name, "");
    assert!(added_status(DetectedKind::Anthropic).starts_with("已添加 API Key 上游 (识别为 "));
}

fn snapshot(remaining: Option<f64>, unit: Option<&str>, is_valid: bool) -> BalanceSnapshot {
    BalanceSnapshot {
        upstream_id: "u".to_string(),
        provider: String::new(),
        remaining: remaining.map(double),
        total: None,
        used: None,
        unit: unit.map(str::to_string),
        is_valid,
        message: None,
        fetched_at: 0,
    }
}

#[test]
fn upstream_cells_tell_how_things_stand() {
    assert_eq!(format_balance_snapshot(None), ("未查询".to_string(), None));
    let failed = snapshot(None, None, false);
    assert_eq!(format_balance_snapshot(Some(&failed)).0, "失败");
    let known = snapshot(Some(2.5), Some("USD"), true);
    assert_eq!(format_balance_snapshot(Some(&known)).0, "2.5000 USD");
    let unknown = snapshot(None, None, true);
    assert_eq!(format_balance_snapshot(Some(&unknown)).0, "未知");
    let upstream = relay("u", "n");
    let snapshots = vec![("u".to_string(), Some(known))];
    assert_eq!(balance_cell(&upstream, &snapshots).0, "2.5000 USD");
    assert_eq!(cache_keepalive_label(None).0, "关闭");
    assert_eq!(balance_alert_cell(&upstream, None), ("关闭".to_string(), None));
    let mut settings = UpstreamBalanceAlertSettings::new("u".to_string());
    settings.enabled = true;
    assert_eq!(balance_alert_cell(&upstream, Some(&settings)).0, "刷新 / 1800 秒");
    let mut account = relay("u", "n");
    account.kind = UpstreamKind::CodexOauth;
    assert_eq!(balance_alert_cell(&account, Some(&settings)), ("-".to_string(), None));
    assert_eq!(balance_cell(&account, &snapshots), ("-".to_string(), None));
    assert_eq!(import_status(2, 1), "已导入 2 个上游, 已跳过 1 个 peer 节点上游");
    assert_eq!(import_status(2, 0), "已导入 2 个上游");
    assert_eq!(export_status(0, 0, true), "没有已启用的上游可导出");
    assert_eq!(export_status(0, 0, false), "没有上游可导出");
    assert_eq!(delete_question("n"), "确认删除上游 \"n\"? 此操作无法撤销.");
    assert!(find_upstream(&vec![upstream], "other").is_none());
}

fn group_editor(mode: ScheduleMode) -> ScheduleGroupEditor {
    let mut editor = ScheduleGroupEditor::new_empty();
    editor.group.name = " group ".to_string();
    editor.group.mode = mode;
    editor
}

#[test]
fn group_problems_are_named() {
    let mut editor = group_editor(ScheduleMode::Random);
    editor.group.name = " ".to_string();
    assert_eq!(
        prepare_schedule_group_editor(editor).err().unwrap(),
        "调度组名称不能为空"
    );
    let mut editor = group_editor(ScheduleMode::Fixed);
    editor.group.fixed_target_kind = ScheduleRouteTargetKind::Upstream;
    assert_eq!(
        prepare_schedule_group_editor(editor).err().unwrap(),
        "固定模式需要选择上游"
    );
    let mut editor = group_editor(ScheduleMode::Fixed);
    editor.group.fixed_target_kind = ScheduleRouteTargetKind::Group;
    assert_eq!(
        prepare_schedule_group_editor(editor).err().unwrap(),
        "固定模式需要选择调度组"
    );
    let editor = group_editor(ScheduleMode::ModelMapping);
    assert_eq!(
        prepare_schedule_group_editor(editor).err().unwrap(),
        "模型映射模式至少需要一条路由规则"
    );
    let mut editor = group_editor(ScheduleMode::Random);
    editor.group.use_all_upstreams = false;
    assert_eq!(
        prepare_schedule_group_editor(editor).err().unwrap(),
        "至少选择一个组内目标"
    );
    let mut editor = group_editor(ScheduleMode::ModelMapping);
    let mut rule = blank_rule("r".to_string(), "g".to_string());
    rule.pattern = " ".to_string();
    editor.route_rules.push(rule);
    assert_eq!(
        prepare_schedule_group_editor(editor).err().unwrap(),
        "模型路由 pattern 不能为空"
    );
    let mut editor = group_editor(ScheduleMode::ModelMapping);
    let mut rule = default_rule("r".to_string(), "g".to_string());
    rule.target_kind = ScheduleRouteTargetKind::Group;
    rule.target_group_id = None;
    editor.route_rules.push(rule);
    assert_eq!(
        prepare_schedule_group_editor(editor).err().unwrap(),
        "模型路由需要选择目标调度组"
    );
    let mut editor = group_editor(ScheduleMode::ModelMapping);
    let mut rule = default_rule("r".to_string(), "g".to_string());
    rule.target_kind = ScheduleRouteTargetKind::Upstream;
    rule.target_upstream_id = None;
    editor.route_rules.push(rule);
    assert_eq!(
        prepare_schedule_group_editor(editor).err().unwrap(),
        "模型路由需要选择目标上游"
    );
}

#[test]
fn prepared_group_is_trimmed_and_identified() {
    let mut editor = group_editor(ScheduleMode::Random);
    editor.group.use_all_upstreams = true;
    let ready = prepare_schedule_group_editor(editor).unwrap();
    assert_eq!(ready.group.name, "group");
    let mut editor = group_editor(ScheduleMode::Random);
    editor.group.use_all_upstreams = true;
    let ready = prepare_new_group(editor).unwrap();
    assert_eq!(ready.group.id.len(), 36);
}

#[test]
fn saved_group_plans_its_members() {
    let mut editor = group_editor(ScheduleMode::Random);
    editor.group.id = "g".to_string();
    editor.group.use_all_upstreams = false;
    choose_target(&mut editor.member_ids, "b", true);
    choose_target(&mut editor.member_ids, "a", true);
    choose_target(&mut editor.member_ids, "b", false);
    assert_eq!(editor.member_ids, vec!["a".to_string()]);
    editor.route_rules.push(blank_rule("kept".to_string(), "g".to_string()));
    let upstreams = vec![relay("a", "A"), relay("b", "B")];
    let mut own = ScheduleGroup::with_id("g".to_string(), at(0), "g".to_string());
    own.id = "g".to_string();
    let other = ScheduleGroup::with_id("h".to_string(), at(0), "h".to_string());
    let existing = vec![
        blank_rule("kept".to_string(), "g".to_string()),
        blank_rule("gone".to_string(), "g".to_string()),
    ];
    let groups = vec![own, other];
    let plan = plan_save_now(&editor, &upstreams, &groups, &existing);
    assert_eq!(plan.members[0].created_at, plan.members[0].updated_at);
    assert!(plan.members[0].created_at.seconds > 1_700_000_000);
    let plan = plan_save(&editor, &upstreams, &groups, &existing, at(9));
    assert_eq!(plan.members.len(), 2);
    assert!(plan.members[0].enabled);
    assert!(!plan.members[1].enabled);
    assert_eq!(plan.children.len(), 1);
    assert_eq!(plan.children[0].target_group_id, "h");
    assert_eq!(plan.deleted_rule_ids, vec!["gone".to_string()]);
}

#[test]
fn groups_are_summed_up() {
    let upstreams = vec![relay("a", "A")];
    let mut group = ScheduleGroup::with_id("g".to_string(), at(0), "G".to_string());
    group.mode = ScheduleMode::Fixed;
    group.fixed_target_kind = ScheduleRouteTargetKind::Upstream;
    group.fixed_upstream_id = Some("a".to_string());
    assert_eq!(schedule_group_summary(&group, &upstreams, 0), "固定上游: A");
    group.fixed_upstream_id = Some("x".to_string());
    assert_eq!(schedule_group_summary(&group, &upstreams, 0), "固定上游: 不存在");
    group.fixed_upstream_id = None;
    assert_eq!(schedule_group_summary(&group, &upstreams, 0), "固定上游: 未选择");
    group.fixed_target_kind = ScheduleRouteTargetKind::Group;
    assert_eq!(schedule_group_summary(&group, &upstreams, 0), "固定调度组");
    group.mode = ScheduleMode::ModelMapping;
    assert_eq!(schedule_group_line(&group, &upstreams, 2), "G [模型映射, 路由 2 条]");
    assert_eq!(mode_label(ScheduleMode::RoundRobin), "轮询");
    assert_eq!(target_kind_label(ScheduleRouteTargetKind::Group), "调度组");
    assert!(is_deletable(&group));
    group.id = "default".to_string();
    assert!(!is_deletable(&group));
    assert_eq!(chosen_upstream_label(&Some("a".to_string()), &upstreams), "A");
    assert_eq!(chosen_upstream_label(&None, &upstreams), "未选择");
    assert_eq!(chosen_group_label(&Some("x".to_string()), &vec![group]), "未选择");
    let mut off = relay("b", "B");
    off.enabled = false;
    assert_eq!(member_label(&off), "B (disabled)");
    assert!(route_max_hops(0) >= 1);
}
