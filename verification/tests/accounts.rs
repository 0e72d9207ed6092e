use codex_switch::clock::{CivilTime, Timestamp};
use codex_switch::models::{BalanceProvider, TemporaryAccessKey, Upstream, WireApi};
use codex_switch::oauth::{
    batch_start_status, clear_finished, counts_text, drive_oauth_tasks, handle_oauth_import_finished,
    handle_oauth_import_progress, handle_oauth_polled, handle_oauth_started, has_finished,
    import_finished, import_pending, import_result_label, import_source_label, new_batch,
    oauth_task_status, oauth_task_title, poll_oauth_task, remove_task, restart_oauth_task,
    start_batch, start_oauth_task, DeviceFlow, OAuthAccountStoreOutcome, OAuthFileImportItem,
    OAuthFileImportOutcome, OAuthImportBatchResult, OAuthLoginTask, OAuthLoginTaskState,
    OAuthPollTaskResult,
};
use codex_switch::quota::{account_line, accounts};
use codex_switch::temp_keys::{
    cleared_form, create_temp_key, edit_form, edited_at, format_expires_at, format_expiry, key_at,
    limits_at, name_label, open_temp_key_editor, request_limit_text, save_temp_key_editor,
    shows_copied, temp_key_status, temp_key_status_at, toggle_status, toggle_temp_key,
    token_limit_text, TempKeyForm,
};

const SECOND: u128 = 1_000_000_000;

#[test]
fn terminal_states_are_clearable() {
    assert!(OAuthLoginTaskState::Expired.is_terminal());
    assert!(OAuthLoginTaskState::Failed("failed".to_string()).is_terminal());
    assert!(!OAuthLoginTaskState::Waiting.is_terminal());
    assert!(!OAuthLoginTaskState::Polling.is_terminal());
}

#[test]
fn independent_tasks_keep_independent_poll_deadlines() {
    let now = 1_000 * SECOND;
    let first = OAuthLoginTask {
        id: "first-task".to_string(),
        state: OAuthLoginTaskState::Waiting,
        flow: None,
        expires_at: Some(now + 60 * SECOND),
        next_poll_at: Some(now),
        warning: None,
    };
    let second = OAuthLoginTask {
        id: "second-task".to_string(),
        state: OAuthLoginTaskState::Waiting,
        flow: None,
        expires_at: Some(now + 60 * SECOND),
        next_poll_at: Some(now + 10 * SECOND),
        warning: None,
    };
    assert!(first.next_poll_at.is_some_and(|deadline| deadline <= now));
    assert!(second.next_poll_at.is_some_and(|deadline| deadline > now));
}

fn flow() -> DeviceFlow {
    DeviceFlow {
        device_code: "device".to_string(),
        user_code: "USER-CODE".to_string(),
        verification_uri: "https://auth.example".to_string(),
        interval: 5,
        expires_in: 60,
    }
}

#[test]
fn login_runs_from_start_to_account() {
    let now = 1_000 * SECOND;
    let mut tasks: Vec<OAuthLoginTask> = Vec::new();
    let id = start_oauth_task(&mut tasks);
    assert_eq!(id.len(), 36);
    assert_eq!(oauth_task_status(&tasks[0].state), "正在创建");
    assert_eq!(oauth_task_title(&tasks[0]), format!("登录任务 {}", &id[..8]));
    assert_eq!(
        handle_oauth_started(&mut tasks, &id, Ok(flow()), now),
        Some("OAuth 登录任务已创建".to_string())
    );
    assert!(tasks[0].state.is_waiting());
    assert_eq!(oauth_task_title(&tasks[0]), "登录任务 USER-CODE");
    assert_eq!(tasks[0].expires_at, Some(now + 60 * SECOND));
    assert!(drive_oauth_tasks(&mut tasks, now).is_empty());
    let due = drive_oauth_tasks(&mut tasks, now + 10 * SECOND);
    assert_eq!(due.len(), 1);
    assert_eq!(due[0].1.device_code, "device");
    assert_eq!(oauth_task_status(&tasks[0].state), "正在检查");
    assert_eq!(
        handle_oauth_polled(&mut tasks, &id, OAuthPollTaskResult::Pending, now + 10 * SECOND),
        Some("等待 OAuth 授权".to_string())
    );
    assert_eq!(poll_oauth_task(&mut tasks, &id).unwrap().user_code, "USER-CODE");
    let stored = OAuthPollTaskResult::Stored {
        outcome: OAuthAccountStoreOutcome::Created,
        upstream_name: "me".to_string(),
    };
    assert_eq!(
        handle_oauth_polled(&mut tasks, &id, stored, now + 20 * SECOND),
        Some("OAuth 账号已新增: me".to_string())
    );
    assert_eq!(oauth_task_status(&tasks[0].state), "已新增: me");
    assert!(has_finished(&tasks, &None));
    clear_finished(&mut tasks);
    assert!(tasks.is_empty());
}

#[test]
fn expired_login_can_be_tried_again() {
    let now = 1_000 * SECOND;
    let mut tasks: Vec<OAuthLoginTask> = Vec::new();
    let id = start_oauth_task(&mut tasks);
    handle_oauth_started(&mut tasks, &id, Ok(flow()), now);
    assert!(drive_oauth_tasks(&mut tasks, now + 60 * SECOND).is_empty());
    assert!(matches!(tasks[0].state, OAuthLoginTaskState::Expired));
    assert!(tasks[0].state.can_retry());
    assert!(restart_oauth_task(&mut tasks, &id));
    assert!(matches!(tasks[0].state, OAuthLoginTaskState::Starting));
    assert!(!restart_oauth_task(&mut tasks, "another"));
    assert_eq!(
        handle_oauth_started(&mut tasks, &id, Err("dns".to_string()), now),
        Some("OAuth 启动失败: dns".to_string())
    );
    assert_eq!(oauth_task_status(&tasks[0].state), "失败: dns");
    remove_task(&mut tasks, &id);
    assert!(tasks.is_empty());
}

#[test]
fn failed_poll_is_tried_again() {
    let now = 1_000 * SECOND;
    let mut tasks: Vec<OAuthLoginTask> = Vec::new();
    let id = start_oauth_task(&mut tasks);
    handle_oauth_started(&mut tasks, &id, Ok(flow()), now);
    let said = handle_oauth_polled(
        &mut tasks,
        &id,
        OAuthPollTaskResult::RetryableError("502".to_string()),
        now,
    );
    assert_eq!(said, Some("OAuth 轮询暂时失败, 将自动重试".to_string()));
    assert_eq!(tasks[0].warning.as_deref(), Some("502"));
    assert!(tasks[0].state.is_waiting());
    let said = handle_oauth_polled(
        &mut tasks,
        &id,
        OAuthPollTaskResult::Broken("denied".to_string()),
        now,
    );
    assert_eq!(said, Some("OAuth 轮询失败: denied".to_string()));
    let said = handle_oauth_polled(&mut tasks, &id, OAuthPollTaskResult::Expired, now);
    assert_eq!(said, Some("OAuth 用户码已过期".to_string()));
}

#[test]
fn import_counts_its_files() {
    assert_eq!(start_batch(2).id.len(), 36);
    let mut batch = new_batch("b".to_string(), 2);
    assert_eq!(batch_start_status(2), "准备导入 2 个 OAuth 凭据文件");
    let item = OAuthFileImportItem {
        source: "a.json".to_string(),
        outcome: OAuthFileImportOutcome::Failed {
            message: "bad".to_string(),
        },
    };
    assert_eq!(
        handle_oauth_import_progress(&mut batch, "b", 1, 2, item),
        Some("正在导入 OAuth 账号: 1/2".to_string())
    );
    let other = OAuthFileImportItem {
        source: "b.json".to_string(),
        outcome: OAuthFileImportOutcome::Failed {
            message: "bad".to_string(),
        },
    };
    assert_eq!(handle_oauth_import_progress(&mut batch, "c", 2, 2, other), None);
    assert_eq!(batch.items.len(), 1);
    let result = OAuthImportBatchResult {
        created: 1,
        updated: 0,
        failed: 1,
    };
    assert_eq!(counts_text(result), "新增 1, 更新 0, 失败 1");
    let (said, refresh) = handle_oauth_import_finished(&mut batch, "b", result).unwrap();
    assert_eq!(said, "OAuth 导入完成: 新增 1, 更新 0, 失败 1");
    assert!(refresh);
    let batch = Some(batch);
    assert!(!import_pending(&batch));
    assert!(import_finished(&batch));
    assert_eq!(import_source_label(Some("dir"), "a.json"), "dir/a.json");
    assert_eq!(import_source_label(None, "a.json"), "a.json");
    assert_eq!(import_result_label("已新增", "me", true), "已新增: me");
    assert_eq!(import_result_label("已新增", "me", false), "已新增: me, 仅 access token");
}

fn form() -> TempKeyForm {
    TempKeyForm {
        name: " guest ".to_string(),
        key_value: " sk-guest ".to_string(),
        limit_requests: true,
        request_limit_input: " 10 ".to_string(),
        limit_tokens: true,
        token_limit_input: "1M".to_string(),
        limit_time: true,
        duration_input: "1d2h".to_string(),
    }
}

#[test]
fn form_makes_a_limited_key() {
    let key = key_at(&form(), "id".to_string(), "generated", 1_000).unwrap();
    assert_eq!(key.name, "guest");
    assert_eq!(key.key_value, "sk-guest");
    assert!(key.enabled);
    assert_eq!(key.request_limit, Some(10));
    assert_eq!(key.token_limit, Some(1_000_000));
    assert_eq!(key.expires_at, Some(1_000 + 93_600));
    let mut blank = cleared_form();
    let key = key_at(&blank, "id".to_string(), "generated", 1_000).unwrap();
    assert_eq!(key.key_value, "cs-tmp-generated");
    assert_eq!(key.request_limit, None);
    blank.name = "x".to_string();
    let created = create_temp_key(&blank).unwrap();
    assert_eq!(created.id.len(), 36);
    assert!(created.key_value.starts_with("cs-tmp-"));
    assert_eq!(created.key_value.len(), 43);
    assert_ne!(created.id, create_temp_key(&blank).unwrap().id);
    let edited = edited_at(&form(), "generated", 0).unwrap();
    assert_eq!(edited.limits.expires_at, Some(93_600));
    assert_eq!(save_temp_key_editor(&form()).unwrap().key_value, "sk-guest");
}

#[test]
fn form_problems_are_named() {
    let mut bad = form();
    bad.request_limit_input = "x".to_string();
    assert_eq!(limits_at(&bad, 0).err().unwrap(), "成功请求次数 需要填写正整数");
    bad.request_limit_input = "0".to_string();
    assert_eq!(limits_at(&bad, 0).err().unwrap(), "成功请求次数 必须大于 0");
    assert_eq!(create_temp_key(&bad).err().unwrap(), "成功请求次数 必须大于 0");
    let mut bad = form();
    bad.token_limit_input = "0".to_string();
    assert_eq!(limits_at(&bad, 0).err().unwrap(), "总 token 上限必须大于 0");
    bad.token_limit_input = "x".to_string();
    assert!(limits_at(&bad, 0).err().unwrap().starts_with("总 token 上限 "));
    let mut bad = form();
    bad.duration_input = String::new();
    assert!(limits_at(&bad, 0).is_err());
}

#[test]
fn unchanged_edit_keeps_the_limits() {
    let key = key_at(&form(), "id".to_string(), "generated", 1_000).unwrap();
    let shown = edit_form(&key, 1_000);
    assert_eq!(shown.request_limit_input, "10");
    assert_eq!(shown.token_limit_input, "1M");
    assert_eq!(shown.duration_input, "1d2h");
    let limits = limits_at(&shown, 1_000).unwrap();
    assert_eq!(limits.request_limit, key.request_limit);
    assert_eq!(limits.token_limit, key.token_limit);
    assert_eq!(limits.expires_at, key.expires_at);
    let keys = vec![key];
    assert!(open_temp_key_editor(&keys, "other").is_none());
    assert_eq!(open_temp_key_editor(&keys, "id").unwrap().name, "guest");
}

fn key(request_limit: Option<i64>, expires_at: Option<i64>) -> TemporaryAccessKey {
    TemporaryAccessKey::new(
        "id".to_string(),
        String::new(),
        "sk".to_string(),
        request_limit,
        Some(2_000),
        expires_at,
    )
}

#[test]
fn key_states_are_told_apart() {
    let mut plain = key(Some(1), Some(100));
    assert_eq!(temp_key_status_at(&plain, 99), "正常");
    assert_eq!(temp_key_status_at(&plain, 100), "已过期");
    plain.requests_used = 1;
    assert_eq!(temp_key_status_at(&plain, 99), "次数已用尽");
    assert_eq!(request_limit_text(&plain), "1/1");
    plain.requests_used = 0;
    plain.tokens_used = 2_000;
    assert_eq!(temp_key_status_at(&plain, 99), "用量已用尽");
    assert_eq!(token_limit_text(&plain), "2K/2K");
    plain.enabled = false;
    assert_eq!(temp_key_status_at(&plain, 99), "已停用");
    assert_eq!(temp_key_status(&key(None, None)), "正常");
    assert_eq!(temp_key_status(&key(None, Some(1))), "已过期");
    assert_eq!(name_label(&plain), "-");
    let keys = vec![plain];
    assert!(toggle_temp_key(&keys, "id"));
    assert!(toggle_temp_key(&keys, "other"));
    assert_eq!(toggle_status(true), "临时 Key 已启用");
    assert_eq!(toggle_status(false), "临时 Key 已停用");
    assert!(shows_copied(SECOND, 2 * SECOND));
    assert!(!shows_copied(SECOND, 3 * SECOND));
}

#[test]
fn expiry_is_a_local_date() {
    let time = CivilTime {
        year: 2024,
        month: 5,
        day: 6,
        hour: 7,
        minute: 8,
        second: 9,
    };
    assert_eq!(format_expiry(time), "2024-05-06 07:08:09");
    assert_eq!(format_expires_at(None), "-");
    assert_eq!(format_expires_at(Some(i64::MAX)), "-");
    assert_eq!(format_expires_at(Some(1_700_000_000)).len(), 19);
}

#[test]
fn accounts_are_the_oauth_upstreams() {
    let now = Timestamp {
        seconds: 0,
        nanos: 0,
    };
    let relay = Upstream::relay(
        "r".to_string(),
        now,
        "relay".to_string(),
        "https://relay.example".to_string(),
        WireApi::Responses,
        true,
        BalanceProvider::Auto,
    );
    let account = Upstream::codex_oauth(
        "o".to_string(),
        now,
        "me".to_string(),
        "account".to_string(),
        None,
        None,
        None,
    );
    let upstreams = vec![relay, account];
    assert_eq!(accounts(&upstreams), vec![1]);
    assert_eq!(account_line(&upstreams[1]), "me [codex_oauth]");
}
