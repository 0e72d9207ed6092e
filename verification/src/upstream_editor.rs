//! The editor of an upstream: what is in its form, what is wrong with it, and
//! what is stored when it is saved.

use crate::balance;
use crate::double;
use crate::float64;
use crate::float64::Double;
use crate::http;
use crate::models;
use crate::models::{
    ApiKeyAuthScheme, BalanceProvider, CacheKeepaliveMode, ErrorRetryPolicy, Upstream,
    UpstreamBalanceAlertSettings, UpstreamCacheKeepaliveSettings, UpstreamKind, WireApi,
};
use crate::text;
use crate::token_amount;
use crate::upstream_detection::{DetectedKind, DetectedUpstream};
use crate::url_text;
use vstd::prelude::*;

verus! {

/// The name under which an upstream's API key is kept.
pub const API_KEY_CREDENTIAL: &'static str = "api_key";

/// The name under which the key of a panel's user is kept.
pub const NEWAPI_USER_KEY_CREDENTIAL: &'static str = "newapi_user_key";

/// The name under which the identifier of a panel's user is kept.
pub const NEWAPI_USER_ID_CREDENTIAL: &'static str = "newapi_user_id";

/// What is in the editor's form.
#[derive(Debug)]
pub struct UpstreamEditor {
    pub upstream: Upstream,
    pub cache_keepalive: UpstreamCacheKeepaliveSettings,
    pub balance_alert: UpstreamBalanceAlertSettings,
    pub min_cacheable_tokens_input: String,
    pub max_cacheable_tokens_input: String,
    pub api_key: String,
    pub newapi_user_key: String,
    pub newapi_user_id: String,
    /// What was said after the detected settings were taken over.
    pub apply_status: String,
}

/// What is stored when an editor is saved.
#[derive(Debug)]
pub struct EditedUpstream {
    pub upstream: Upstream,
    pub cache_keepalive: UpstreamCacheKeepaliveSettings,
    pub balance_alert: UpstreamBalanceAlertSettings,
    /// The credentials to store, by name.
    pub credentials: Vec<(&'static str, String)>,
    /// Whether the upstream's cached sessions end.
    pub ends_sessions: bool,
    /// Whether the list of peer nodes is told.
    pub bumps_peers: bool,
}

impl UpstreamEditor {
    /// The editor of an upstream with its settings.
    pub fn new(
        upstream: Upstream,
        cache_keepalive: UpstreamCacheKeepaliveSettings,
        balance_alert: UpstreamBalanceAlertSettings,
    ) -> (r: Self)
        ensures
            r.upstream == upstream,
            r.cache_keepalive == cache_keepalive,
            r.balance_alert == balance_alert,
            r.min_cacheable_tokens_input@ == token_amount::token_input(
                cache_keepalive.min_cacheable_tokens as int,
            ),
            r.max_cacheable_tokens_input@ == token_amount::token_input(
                cache_keepalive.max_cacheable_tokens as int,
            ),
            r.api_key@.len() == 0,
            r.newapi_user_key@.len() == 0,
            r.newapi_user_id@.len() == 0,
            r.apply_status@.len() == 0,
    {
        let min_cacheable_tokens_input: String = token_amount::format_token_input(
            cache_keepalive.min_cacheable_tokens,
        );
        let max_cacheable_tokens_input: String = token_amount::format_token_input(
            cache_keepalive.max_cacheable_tokens,
        );
        UpstreamEditor {
            upstream,
            cache_keepalive,
            balance_alert,
            min_cacheable_tokens_input,
            max_cacheable_tokens_input,
            api_key: String::new(),
            newapi_user_key: String::new(),
            newapi_user_id: String::new(),
            apply_status: String::new(),
        }
    }

    /// The proxy that the form names.
    pub open spec fn proxy(&self) -> Option<Seq<char>> {
        match self.upstream.proxy_url {
            Some(url) => text::trimmed_non_empty(url@),
            None => None,
        }
    }

    /// Whether the threshold of the alert is one.
    pub open spec fn threshold_ok(&self) -> bool {
        self.balance_alert.threshold is Finite && !double::below(
            self.balance_alert.threshold,
            double::zero(false),
        )
    }

    /// Whether an alert is wanted.
    pub open spec fn wants_alert(&self) -> bool {
        self.balance_alert.enabled && self.balance_alert.alert_enabled
    }

    /// The first thing that is wrong with the form.
    pub open spec fn problem(&self) -> Option<Seq<char>> {
        let min = token_amount::amount_of(self.min_cacheable_tokens_input@);
        let max = token_amount::amount_of(self.max_cacheable_tokens_input@);
        if self.proxy() matches Some(url) && http::proxy_problem(url) is Some {
            Some("代理 URL 无效: "@ + http::proxy_problem(self.proxy()->0)->0)
        } else if !self.threshold_ok() && self.wants_alert() {
            Some("余额提醒阈值必须是大于等于 0 的数字"@)
        } else if let Err(message) = min {
            Some("最小缓存 tokens 无效: "@ + message)
        } else if let Err(message) = max {
            Some("最大缓存 tokens 无效: "@ + message)
        } else if text::trimmed(self.upstream.name@).len() == 0 {
            Some("上游名称不能为空"@)
        } else if (self.upstream.kind == UpstreamKind::RelayApiKey || self.upstream.kind
            == UpstreamKind::PeerNode) && text::trimmed(self.upstream.base_url@).len() == 0 {
            Some("Base URL 不能为空"@)
        } else {
            None
        }
    }

    /// Whether an upstream is the one that the form describes.
    pub open spec fn is_edited(&self, u: &Upstream) -> bool {
        &&& u.name@ == text::trimmed(self.upstream.name@)
        &&& u.base_url@ == text::trimmed(self.upstream.base_url@)
        &&& text::opt_view(u.proxy_url) == self.proxy()
        &&& *u == (Upstream {
            name: u.name,
            base_url: u.base_url,
            proxy_url: u.proxy_url,
            weight: models::larger(self.upstream.weight, 1),
            supports_compact: self.upstream.supports_compact && self.upstream.wire_api
                != WireApi::AnthropicMessages,
            ..self.upstream
        })
    }

    /// The settings of the alert that are stored.
    pub open spec fn edited_alert(&self) -> UpstreamBalanceAlertSettings {
        let relay = self.upstream.kind == UpstreamKind::RelayApiKey;
        UpstreamBalanceAlertSettings {
            upstream_id: self.upstream.id,
            enabled: self.balance_alert.enabled && relay,
            interval_seconds: models::larger(self.balance_alert.interval_seconds, 60),
            alert_enabled: self.wants_alert() && relay,
            threshold: if self.threshold_ok() {
                self.balance_alert.threshold
            } else {
                models::default_threshold()
            },
            ..self.balance_alert
        }
    }

    /// The settings of the cached sessions that are stored, the amounts of
    /// tokens being known.
    pub open spec fn edited_keepalive(&self, min: i64, max: i64) -> UpstreamCacheKeepaliveSettings {
        let relay = self.upstream.kind == UpstreamKind::RelayApiKey;
        UpstreamCacheKeepaliveSettings {
            upstream_id: self.upstream.id,
            enabled: self.cache_keepalive.enabled && relay,
            mode: if relay {
                self.cache_keepalive.mode
            } else {
                CacheKeepaliveMode::Off
            },
            interval_seconds: models::larger(self.cache_keepalive.interval_seconds, 60),
            max_idle_seconds: models::larger(self.cache_keepalive.max_idle_seconds, 60),
            min_cacheable_tokens: models::larger(min, 1024),
            max_cacheable_tokens: models::larger(max, models::larger(min, 1024)),
            max_active_sessions: models::larger(self.cache_keepalive.max_active_sessions, 1),
            ..self.cache_keepalive
        }
    }
}

/// Whether an upstream's balance is asked for with the key of a panel's user.
pub open spec fn asks_newapi(provider: BalanceProvider, base_url: Seq<char>) -> bool {
    provider == BalanceProvider::NewApi || (provider == BalanceProvider::Auto
        && balance::provider_of(text::lowercase_of(base_url)) == Some(BalanceProvider::NewApi))
}

/// Whether an upstream's balance is asked for with the key of a panel's user.
pub fn uses_newapi_balance(upstream: &Upstream) -> (r: bool)
    ensures
        r == asks_newapi(upstream.balance_provider, upstream.base_url@),
{
    if upstream.balance_provider == BalanceProvider::NewApi {
        return true;
    }
    if upstream.balance_provider != BalanceProvider::Auto {
        return false;
    }
    match balance::detect_provider(upstream.base_url.as_str()) {
        Some(BalanceProvider::NewApi) => true,
        _ => false,
    }
}

/// One credential, where there is a value for it.
pub open spec fn credential(wanted: bool, name: Seq<char>, value: Seq<char>) -> Seq<
    (Seq<char>, Seq<char>),
> {
    if wanted && text::trimmed(value).len() > 0 {
        seq![(name, text::trimmed(value))]
    } else {
        Seq::empty()
    }
}

/// The credentials that are stored: a relay's key, and the key and identifier
/// of the panel's user where the balance is asked for with them; none that is
/// blank.
pub open spec fn credentials_of(
    kind: UpstreamKind,
    newapi: bool,
    api_key: Seq<char>,
    user_key: Seq<char>,
    user_id: Seq<char>,
) -> Seq<(Seq<char>, Seq<char>)> {
    let relay = kind == UpstreamKind::RelayApiKey;
    credential(relay, API_KEY_CREDENTIAL@, api_key) + credential(
        relay && newapi,
        NEWAPI_USER_KEY_CREDENTIAL@,
        user_key,
    ) + credential(relay && newapi, NEWAPI_USER_ID_CREDENTIAL@, user_id)
}

/// The names and values of credentials.
pub open spec fn credential_views(s: Seq<(&'static str, String)>) -> Seq<(Seq<char>, Seq<char>)> {
    s.map_values(|c: (&'static str, String)| (c.0@, c.1@))
}

fn note_credential(
    credentials: &mut Vec<(&'static str, String)>,
    wanted: bool,
    name: &'static str,
    value: &str,
)
    ensures
        credential_views(final(credentials)@) == credential_views(old(credentials)@) + credential(
            wanted,
            name@,
            value@,
        ),
{
    let bare: String = text::trim(value);
    if wanted && !text::is_empty(bare.as_str()) {
        credentials.push((name, bare));
    }
    proof {
        assert(credential_views(credentials@) =~= credential_views(old(credentials)@) + credential(
            wanted,
            name@,
            value@,
        ));
    }
}

/// The credentials that are stored, it being known whether the balance is asked
/// for with the key of a panel's user.
pub fn edited_credentials(
    kind: UpstreamKind,
    newapi: bool,
    api_key: &str,
    user_key: &str,
    user_id: &str,
) -> (r: Vec<(&'static str, String)>)
    ensures
        credential_views(r@) == credentials_of(kind, newapi, api_key@, user_key@, user_id@),
{
    let relay: bool = kind == UpstreamKind::RelayApiKey;
    let mut credentials: Vec<(&'static str, String)> = Vec::new();
    proof {
        assert(credential_views(credentials@) =~= Seq::empty());
    }
    note_credential(&mut credentials, relay, API_KEY_CREDENTIAL, api_key);
    note_credential(&mut credentials, relay && newapi, NEWAPI_USER_KEY_CREDENTIAL, user_key);
    note_credential(&mut credentials, relay && newapi, NEWAPI_USER_ID_CREDENTIAL, user_id);
    proof {
        assert(credential_views(credentials@) =~= credentials_of(
            kind,
            newapi,
            api_key@,
            user_key@,
            user_id@,
        ));
    }
    credentials
}

fn edited_upstream(editor: &UpstreamEditor) -> (r: Upstream)
    ensures
        editor.is_edited(&r),
{
    let mut u: Upstream = editor.upstream.clone();
    u.name = text::trim(editor.upstream.name.as_str());
    u.base_url = text::trim(editor.upstream.base_url.as_str());
    u.proxy_url = http::effective_proxy(&editor.upstream.proxy_url);
    u.weight = models::max_of(editor.upstream.weight, 1);
    if editor.upstream.wire_api == WireApi::AnthropicMessages {
        u.supports_compact = false;
    }
    u
}

fn threshold_is_ok(threshold: Double) -> (r: bool)
    requires
        threshold.wf(),
    ensures
        r == (threshold is Finite && !double::below(threshold, double::zero(false))),
{
    match threshold {
        Double::Finite { .. } => !threshold.is_below(Double::nothing()),
        _ => false,
    }
}

fn edited_alert(editor: &UpstreamEditor) -> (r: UpstreamBalanceAlertSettings)
    requires
        editor.balance_alert.threshold.wf(),
    ensures
        r == editor.edited_alert(),
{
    let relay: bool = editor.upstream.kind == UpstreamKind::RelayApiKey;
    let alert: &UpstreamBalanceAlertSettings = &editor.balance_alert;
    UpstreamBalanceAlertSettings {
        upstream_id: editor.upstream.id.clone(),
        enabled: alert.enabled && relay,
        interval_seconds: models::max_of(alert.interval_seconds, 60),
        active_interval_seconds: alert.active_interval_seconds,
        active_window_seconds: alert.active_window_seconds,
        alert_enabled: alert.enabled && alert.alert_enabled && relay,
        threshold: if threshold_is_ok(alert.threshold) {
            alert.threshold
        } else {
            Double::from_fraction(5, 1)
        },
        alert_active: alert.alert_active,
        last_checked_at: alert.last_checked_at,
    }
}

fn edited_keepalive(editor: &UpstreamEditor, min: i64, max: i64) -> (r:
    UpstreamCacheKeepaliveSettings)
    ensures
        r == editor.edited_keepalive(min, max),
{
    let relay: bool = editor.upstream.kind == UpstreamKind::RelayApiKey;
    let settings: &UpstreamCacheKeepaliveSettings = &editor.cache_keepalive;
    let fewest: i64 = models::max_of(min, 1024);
    UpstreamCacheKeepaliveSettings {
        upstream_id: editor.upstream.id.clone(),
        enabled: settings.enabled && relay,
        mode: if relay {
            settings.mode
        } else {
            CacheKeepaliveMode::Off
        },
        interval_seconds: models::max_of(settings.interval_seconds, 60),
        max_idle_seconds: models::max_of(settings.max_idle_seconds, 60),
        min_cacheable_tokens: fewest,
        max_cacheable_tokens: models::max_of(max, fewest),
        max_active_sessions: models::max_of(settings.max_active_sessions, 1),
        prefer_extended_retention: settings.prefer_extended_retention,
    }
}

/// Whether what is stored is what an editor's form says.
pub open spec fn is_edit(edit: &EditedUpstream, editor: &UpstreamEditor) -> bool {
    let min = token_amount::amount_of(editor.min_cacheable_tokens_input@)->Ok_0;
    let max = token_amount::amount_of(editor.max_cacheable_tokens_input@)->Ok_0;
    &&& editor.is_edited(&edit.upstream)
    &&& edit.balance_alert == editor.edited_alert()
    &&& edit.cache_keepalive == editor.edited_keepalive(min as i64, max as i64)
    &&& credential_views(edit.credentials@) == credentials_of(
        editor.upstream.kind,
        asks_newapi(editor.upstream.balance_provider, edit.upstream.base_url@),
        editor.api_key@,
        editor.newapi_user_key@,
        editor.newapi_user_id@,
    )
    &&& edit.ends_sessions == !edit.cache_keepalive.active()
    &&& edit.bumps_peers == (editor.upstream.kind == UpstreamKind::PeerNode)
}

/// What is stored when an editor is saved, or the first thing that is wrong
/// with its form.
pub fn save_upstream_editor(editor: &UpstreamEditor) -> (r: Result<EditedUpstream, String>)
    requires
        editor.balance_alert.threshold.wf(),
        editor.upstream.proxy_url matches Some(url) ==> url@.len() <= url_text::LONGEST_URL,
    ensures
        match r {
            Ok(edit) => editor.problem() is None && is_edit(&edit, editor),
            Err(message) => editor.problem() == Some(message@),
        },
{
    let upstream: Upstream = edited_upstream(editor);
    if let Some(proxy_url) = &upstream.proxy_url {
        proof {
            text::lemma_trimmed_length(editor.upstream.proxy_url->0@);
        }
        if let Err(message) = http::validate_proxy_url(proxy_url.as_str()) {
            return Err(text::concat("代理 URL 无效: ", message.as_str()));
        }
    }
    if !threshold_is_ok(editor.balance_alert.threshold) && editor.balance_alert.enabled
        && editor.balance_alert.alert_enabled {
        return Err("余额提醒阈值必须是大于等于 0 的数字".to_string());
    }
    let min: i64 = match token_amount::parse_token_amount(
        editor.min_cacheable_tokens_input.as_str(),
    ) {
        Ok(n) => n,
        Err(message) => {
            return Err(text::concat("最小缓存 tokens 无效: ", message.as_str()));
        },
    };
    let max: i64 = match token_amount::parse_token_amount(
        editor.max_cacheable_tokens_input.as_str(),
    ) {
        Ok(n) => n,
        Err(message) => {
            return Err(text::concat("最大缓存 tokens 无效: ", message.as_str()));
        },
    };
    if text::is_empty(upstream.name.as_str()) {
        return Err("上游名称不能为空".to_string());
    }
    if (upstream.kind == UpstreamKind::RelayApiKey || upstream.kind == UpstreamKind::PeerNode)
        && text::is_empty(upstream.base_url.as_str()) {
        return Err("Base URL 不能为空".to_string());
    }
    let cache_keepalive: UpstreamCacheKeepaliveSettings = edited_keepalive(editor, min, max);
    let credentials: Vec<(&'static str, String)> = edited_credentials(
        upstream.kind,
        uses_newapi_balance(&upstream),
        editor.api_key.as_str(),
        editor.newapi_user_key.as_str(),
        editor.newapi_user_id.as_str(),
    );
    let ends_sessions: bool = !cache_keepalive.is_active();
    let bumps_peers: bool = upstream.kind == UpstreamKind::PeerNode;
    Ok(
        EditedUpstream {
            upstream,
            cache_keepalive,
            balance_alert: edited_alert(editor),
            credentials,
            ends_sessions,
            bumps_peers,
        },
    )
}

/// Settings that were saved are read back as they are used: the limits of the
/// cached sessions are those that a session goes by, and an alert has a
/// threshold.
pub proof fn law_saved_settings_are_settled(edit: &EditedUpstream, editor: &UpstreamEditor)
    requires
        is_edit(edit, editor),
    ensures
        edit.cache_keepalive.interval() == edit.cache_keepalive.interval_seconds,
        edit.cache_keepalive.idle_limit() == edit.cache_keepalive.max_idle_seconds,
        edit.cache_keepalive.min_tokens() == edit.cache_keepalive.min_cacheable_tokens,
        edit.cache_keepalive.max_tokens() == edit.cache_keepalive.max_cacheable_tokens,
        edit.balance_alert.interval_seconds >= 60,
        edit.balance_alert.threshold is Finite,
        !double::below(edit.balance_alert.threshold, double::zero(false)),
        edit.upstream.weight >= 1,
        edit.balance_alert.alert_enabled ==> edit.balance_alert.enabled,
        edit.upstream.kind != UpstreamKind::RelayApiKey ==> !edit.cache_keepalive.active()
            && !edit.balance_alert.enabled && edit.credentials@.len() == 0,
        edit.upstream.wire_api == WireApi::AnthropicMessages ==> !edit.upstream.supports_compact,
        edit.upstream.price_multiplier == editor.upstream.price_multiplier,
        edit.upstream.error_retry_policy == editor.upstream.error_retry_policy,
        edit.upstream.strip_multimodal_for_text_models
            == editor.upstream.strip_multimodal_for_text_models,
        edit.upstream.unknown_modality_policy == editor.upstream.unknown_modality_policy,
{
    assert(edit.credentials@.len() == credential_views(edit.credentials@).len());
    float64::lemma_small_integer(5);
}

/// An upstream whose settings are saved is saved again unchanged, as long as
/// nothing but the amounts' texts was rewritten.
pub proof fn law_save_is_settled(
    editor: &UpstreamEditor,
    edit: &EditedUpstream,
    reopened: &UpstreamEditor,
    again: &EditedUpstream,
)
    requires
        is_edit(edit, editor),
        reopened.upstream == edit.upstream,
        reopened.cache_keepalive == edit.cache_keepalive,
        reopened.balance_alert == edit.balance_alert,
        token_amount::amount_of(reopened.min_cacheable_tokens_input@) == Ok::<int, Seq<char>>(
            edit.cache_keepalive.min_cacheable_tokens as int,
        ),
        token_amount::amount_of(reopened.max_cacheable_tokens_input@) == Ok::<int, Seq<char>>(
            edit.cache_keepalive.max_cacheable_tokens as int,
        ),
        editor.balance_alert.threshold.wf(),
        is_edit(again, reopened),
    ensures
        again.cache_keepalive == edit.cache_keepalive,
        again.balance_alert == edit.balance_alert,
        again.upstream.name@ == edit.upstream.name@,
        again.upstream.base_url@ == edit.upstream.base_url@,
        text::opt_view(again.upstream.proxy_url) == text::opt_view(edit.upstream.proxy_url),
        again.upstream == (Upstream {
            name: again.upstream.name,
            base_url: again.upstream.base_url,
            proxy_url: again.upstream.proxy_url,
            ..edit.upstream
        }),
{
    text::law_trim_is_settled(editor.upstream.name@);
    text::law_trim_is_settled(editor.upstream.base_url@);
    if let Some(url) = editor.upstream.proxy_url {
        text::law_trim_is_settled(url@);
    }
}

/// The editor once another Base URL was typed: what was said of the detected
/// settings no longer holds.
pub fn base_url_changed(editor: &mut UpstreamEditor)
    ensures
        *final(editor) == (UpstreamEditor {
            apply_status: final(editor).apply_status,
            ..*old(editor)
        }),
        final(editor).apply_status@.len() == 0,
{
    editor.apply_status = String::new();
}

/// The editor once the messages protocol was chosen: the key goes into its own
/// header, and nothing is compacted.
pub fn choose_messages_api(editor: &mut UpstreamEditor)
    ensures
        *final(editor) == (UpstreamEditor {
            upstream: Upstream {
                wire_api: WireApi::AnthropicMessages,
                api_key_auth_scheme: ApiKeyAuthScheme::XApiKey,
                supports_compact: false,
                ..old(editor).upstream
            },
            ..*old(editor)
        }),
{
    editor.upstream.wire_api = WireApi::AnthropicMessages;
    editor.upstream.api_key_auth_scheme = ApiKeyAuthScheme::XApiKey;
    editor.upstream.supports_compact = false;
}

/// Names with a comma between them.
pub open spec fn joined(names: Seq<&'static str>) -> Seq<char>
    decreases names.len(),
{
    if names.len() == 0 {
        Seq::empty()
    } else if names.len() == 1 {
        names[0]@
    } else {
        joined(names.drop_last()) + ", "@ + names.last()@
    }
}

/// Names with a comma between them.
pub fn join_names(names: &Vec<&'static str>) -> (r: String)
    ensures
        r@ == joined(names@),
{
    let mut out: String = String::new();
    let mut i: usize = 0;
    while i < names.len()
        invariant
            i <= names@.len(),
            out@ == joined(names@.take(i as int)),
        decreases names@.len() - i,
    {
        proof {
            let longer = names@.take(i as int + 1);
            assert(longer.drop_last() =~= names@.take(i as int));
            assert(longer.last() == names@[i as int]);
        }
        if i == 0 {
            out = names[0].to_string();
        } else {
            out = text::concat3(out.as_str(), ", ", names[i]);
        }
        i = i + 1;
    }
    proof {
        assert(names@.take(names@.len() as int) =~= names@);
    }
    out
}

/// What is said after detected settings were taken over.
pub open spec fn apply_text(changes: Seq<&'static str>) -> Seq<char> {
    if changes.len() == 0 {
        "当前设置与识别结果一致"@
    } else {
        "已按识别结果改写: "@ + joined(changes)
    }
}

/// Takes over the settings that were detected from the Base URL, and says which
/// of them were new.
pub fn apply_detection(editor: &mut UpstreamEditor, detected: DetectedUpstream)
    ensures
        final(editor).upstream == detected.suggestion.applied(old(editor).upstream),
        final(editor).apply_status@ == apply_text(
            detected.suggestion.changes(old(editor).upstream),
        ),
        *final(editor) == (UpstreamEditor {
            upstream: final(editor).upstream,
            apply_status: final(editor).apply_status,
            ..*old(editor)
        }),
{
    let changed: Vec<&'static str> = detected.suggestion.apply_to(&mut editor.upstream);
    editor.apply_status = if changed.len() == 0 {
        "当前设置与识别结果一致".to_string()
    } else {
        text::concat("已按识别结果改写: ", join_names(&changed).as_str())
    };
}

/// What the form says of the kind of a Base URL, where it is known.
pub fn detected_label(kind: DetectedKind) -> (r: Option<String>)
    ensures
        text::opt_view(r) == if kind == DetectedKind::Unknown {
            None
        } else {
            Some("识别: "@ + kind.name())
        },
{
    if kind == DetectedKind::Unknown {
        None
    } else {
        Some(text::concat("识别: ", kind.label()))
    }
}

/// What the form says of the provider of a Base URL, where it is known.
pub fn detected_provider_label(provider: Option<BalanceProvider>) -> (r: Option<String>)
    ensures
        text::opt_view(r) == match provider {
            Some(p) => Some("识别为: "@ + p.name()),
            None => None,
        },
{
    match provider {
        Some(p) => Some(text::concat("识别为: ", p.as_str())),
        None => None,
    }
}

/// The label of a retry policy.
pub fn error_retry_policy_label(policy: ErrorRetryPolicy) -> (r: &'static str)
    ensures
        r@ == match policy {
            ErrorRetryPolicy::Off => "关闭"@,
            ErrorRetryPolicy::Transient => "仅临时错误"@,
            ErrorRetryPolicy::All => "全部上游错误"@,
        },
{
    match policy {
        ErrorRetryPolicy::Off => "关闭",
        ErrorRetryPolicy::Transient => "仅临时错误",
        ErrorRetryPolicy::All => "全部上游错误",
    }
}

/// What the form offers as retry policies.
pub fn error_retry_policies() -> (r: Vec<ErrorRetryPolicy>)
    ensures
        r@ == seq![ErrorRetryPolicy::Off, ErrorRetryPolicy::Transient, ErrorRetryPolicy::All],
{
    vec![ErrorRetryPolicy::Off, ErrorRetryPolicy::Transient, ErrorRetryPolicy::All]
}

/// The settings of an alert once its refreshing was switched: without it there
/// is no alert.
pub fn refresh_switched(settings: &mut UpstreamBalanceAlertSettings)
    ensures
        *final(settings) == (UpstreamBalanceAlertSettings {
            alert_enabled: old(settings).alert_enabled && old(settings).enabled,
            ..*old(settings)
        }),
{
    if !settings.enabled {
        settings.alert_enabled = false;
    }
}

/// Whether an upstream can be handed to another device: a peer node cannot.
pub fn is_exportable(kind: UpstreamKind) -> (r: bool)
    ensures
        r == (kind != UpstreamKind::PeerNode),
{
    kind != UpstreamKind::PeerNode
}

/// What the form offers as balance providers.
pub fn balance_providers() -> (r: Vec<BalanceProvider>)
    ensures
        r@ == seq![
            BalanceProvider::Auto,
            BalanceProvider::DeepSeek,
            BalanceProvider::StepFun,
            BalanceProvider::SiliconFlowCn,
            BalanceProvider::SiliconFlowGlobal,
            BalanceProvider::OpenRouter,
            BalanceProvider::Novita,
            BalanceProvider::Zhipu,
            BalanceProvider::Sub2Api,
            BalanceProvider::NewApi,
            BalanceProvider::Unsupported,
        ],
{
    vec![
        BalanceProvider::Auto,
        BalanceProvider::DeepSeek,
        BalanceProvider::StepFun,
        BalanceProvider::SiliconFlowCn,
        BalanceProvider::SiliconFlowGlobal,
        BalanceProvider::OpenRouter,
        BalanceProvider::Novita,
        BalanceProvider::Zhipu,
        BalanceProvider::Sub2Api,
        BalanceProvider::NewApi,
        BalanceProvider::Unsupported,
    ]
}

/// A form is refused exactly where its proxy is none, its alert is wanted with
/// a threshold that is no number from zero on, an amount of tokens is none, its
/// name is blank, or it is a relay or a peer node with a blank address.
pub proof fn law_form_is_refused_for_what_is_missing(editor: &UpstreamEditor)
    ensures
        editor.problem() is None <==> {
            &&& editor.upstream.proxy_url matches Some(url) ==> text::trimmed(url@).len() == 0
                || http::proxy_problem(text::trimmed(url@)) is None
            &&& editor.balance_alert.enabled && editor.balance_alert.alert_enabled
                ==> editor.balance_alert.threshold is Finite && !double::below(
                editor.balance_alert.threshold,
                double::zero(false),
            )
            &&& token_amount::amount_of(editor.min_cacheable_tokens_input@) is Ok
            &&& token_amount::amount_of(editor.max_cacheable_tokens_input@) is Ok
            &&& text::trimmed(editor.upstream.name@).len() > 0
            &&& editor.upstream.kind == UpstreamKind::RelayApiKey ==> text::trimmed(
                editor.upstream.base_url@,
            ).len() > 0
            &&& editor.upstream.kind == UpstreamKind::PeerNode ==> text::trimmed(
                editor.upstream.base_url@,
            ).len() > 0
        },
{
}

/// What was typed is stored: the trimmed name, address and proxy, no proxy
/// where it is blank, and all that the form does not bound as it is.
pub proof fn law_stored_upstream_is_as_typed(edit: &EditedUpstream, editor: &UpstreamEditor)
    requires
        is_edit(edit, editor),
    ensures
        edit.upstream.id == editor.upstream.id,
        edit.upstream.kind == editor.upstream.kind,
        edit.upstream.name@ == text::trimmed(editor.upstream.name@),
        edit.upstream.base_url@ == text::trimmed(editor.upstream.base_url@),
        edit.upstream.proxy_url is Some <==> (editor.upstream.proxy_url matches Some(url)
            && text::trimmed(url@).len() > 0),
        edit.upstream.proxy_url matches Some(stored) ==> stored@ == text::trimmed(
            editor.upstream.proxy_url->0@,
        ),
        edit.upstream.enabled == editor.upstream.enabled,
        edit.upstream.wire_api == editor.upstream.wire_api,
        edit.upstream.api_key_auth_scheme == editor.upstream.api_key_auth_scheme,
        edit.upstream.priority == editor.upstream.priority,
        editor.upstream.weight >= 1 ==> edit.upstream.weight == editor.upstream.weight,
        editor.upstream.weight < 1 ==> edit.upstream.weight == 1,
        edit.upstream.balance_provider == editor.upstream.balance_provider,
        edit.upstream.filter_chat_server_tools == editor.upstream.filter_chat_server_tools,
        edit.upstream.supports_compact <==> editor.upstream.supports_compact
            && editor.upstream.wire_api != WireApi::AnthropicMessages,
{
}

/// The settings of a relay are stored as they were typed, raised to their lower
/// bounds; those of any other upstream are stored as switched off.
pub proof fn law_stored_settings_are_as_typed(edit: &EditedUpstream, editor: &UpstreamEditor)
    requires
        is_edit(edit, editor),
        editor.problem() is None,
    ensures
        ({
            let relay = editor.upstream.kind == UpstreamKind::RelayApiKey;
            let k = edit.cache_keepalive;
            let typed = editor.cache_keepalive;
            let min = token_amount::amount_of(editor.min_cacheable_tokens_input@)->Ok_0;
            let max = token_amount::amount_of(editor.max_cacheable_tokens_input@)->Ok_0;
            &&& k.upstream_id == editor.upstream.id
            &&& k.enabled <==> typed.enabled && relay
            &&& relay ==> k.mode == typed.mode
            &&& !relay ==> k.mode == CacheKeepaliveMode::Off
            &&& k.interval_seconds >= 60 && (typed.interval_seconds >= 60 ==> k.interval_seconds
                == typed.interval_seconds)
            &&& k.max_idle_seconds >= 60 && (typed.max_idle_seconds >= 60 ==> k.max_idle_seconds
                == typed.max_idle_seconds)
            &&& k.max_active_sessions >= 1 && (typed.max_active_sessions >= 1
                ==> k.max_active_sessions == typed.max_active_sessions)
            &&& k.min_cacheable_tokens >= 1024 && (min >= 1024 ==> k.min_cacheable_tokens == min)
            &&& k.max_cacheable_tokens >= k.min_cacheable_tokens && (max >= k.min_cacheable_tokens
                ==> k.max_cacheable_tokens == max)
            &&& k.prefer_extended_retention == typed.prefer_extended_retention
            &&& edit.ends_sessions <==> !k.enabled || k.mode == CacheKeepaliveMode::Off
        }),
        ({
            let relay = editor.upstream.kind == UpstreamKind::RelayApiKey;
            let a = edit.balance_alert;
            let typed = editor.balance_alert;
            &&& a.upstream_id == editor.upstream.id
            &&& a.enabled <==> typed.enabled && relay
            &&& a.alert_enabled <==> typed.alert_enabled && typed.enabled && relay
            &&& a.interval_seconds >= 60 && (typed.interval_seconds >= 60 ==> a.interval_seconds
                == typed.interval_seconds)
            &&& typed.enabled && typed.alert_enabled ==> a.threshold == typed.threshold
            &&& a.active_interval_seconds == typed.active_interval_seconds
            &&& a.active_window_seconds == typed.active_window_seconds
        }),
        edit.bumps_peers <==> editor.upstream.kind == UpstreamKind::PeerNode,
{
    token_amount::law_amounts_are_not_negative(editor.min_cacheable_tokens_input@);
    token_amount::law_amounts_are_not_negative(editor.max_cacheable_tokens_input@);
}

/// A credential is stored exactly where it belongs to a relay, is not blank
/// and, if it is that of a panel's user, the balance is asked of a panel. Each
/// is stored under its own name with what was typed for it.
pub proof fn law_credentials_are_stored_by_name(
    kind: UpstreamKind,
    newapi: bool,
    api_key: Seq<char>,
    user_key: Seq<char>,
    user_id: Seq<char>,
    value: Seq<char>,
)
    ensures
        ({
            let stored = credentials_of(kind, newapi, api_key, user_key, user_id);
            let relay = kind == UpstreamKind::RelayApiKey;
            &&& stored.contains(("api_key"@, value)) <==> relay && text::trimmed(api_key).len() > 0
                && value == text::trimmed(api_key)
            &&& stored.contains(("newapi_user_key"@, value)) <==> relay && newapi && text::trimmed(
                user_key,
            ).len() > 0 && value == text::trimmed(user_key)
            &&& stored.contains(("newapi_user_id"@, value)) <==> relay && newapi && text::trimmed(
                user_id,
            ).len() > 0 && value == text::trimmed(user_id)
        }),
{
    reveal_strlit("api_key");
    reveal_strlit("newapi_user_key");
    reveal_strlit("newapi_user_id");
    assert("api_key"@.len() == 7);
    assert("newapi_user_key"@.len() == 15);
    assert("newapi_user_id"@.len() == 14);
    let relay = kind == UpstreamKind::RelayApiKey;
    let a = credential(relay, API_KEY_CREDENTIAL@, api_key);
    let b = credential(relay && newapi, NEWAPI_USER_KEY_CREDENTIAL@, user_key);
    let c = credential(relay && newapi, NEWAPI_USER_ID_CREDENTIAL@, user_id);
    let stored = credentials_of(kind, newapi, api_key, user_key, user_id);
    assert(stored == a + b + c);
    if a.len() > 0 {
        assert(stored[0] == a[0]);
    }
    if b.len() > 0 {
        assert(stored[a.len() as int] == b[0]);
    }
    if c.len() > 0 {
        assert(stored[(a.len() + b.len()) as int] == c[0]);
    }
    assert forall|i: int| 0 <= i < stored.len() implies (a.len() > 0 && stored[i] == a[0]) || (
    b.len() > 0 && stored[i] == b[0]) || (c.len() > 0 && stored[i] == c[0]) by {
        assert(a.len() <= 1 && b.len() <= 1 && c.len() <= 1);
    }
}

/// The user's key is wanted where a panel of that kind was chosen, or where the
/// choice is automatic and the address names one; any other choice wants none.
pub proof fn law_user_key_is_for_panels(provider: BalanceProvider, base_url: Seq<char>)
    ensures
        provider == BalanceProvider::NewApi ==> asks_newapi(provider, base_url),
        provider == BalanceProvider::Auto ==> (asks_newapi(provider, base_url)
            <==> balance::provider_of(text::lowercase_of(base_url)) == Some(
            BalanceProvider::NewApi,
        )),
        provider != BalanceProvider::NewApi && provider != BalanceProvider::Auto ==> !asks_newapi(
            provider,
            base_url,
        ),
{
}

/// What was taken over is named in its order, with commas between the names;
/// where nothing was new, that is said.
pub proof fn law_changes_are_named_in_order(changes: Seq<&'static str>, last: &'static str)
    ensures
        changes.len() > 0 ==> joined(changes.push(last)) == joined(changes) + ", "@ + last@,
        changes.len() == 0 ==> joined(changes.push(last)) == last@,
        apply_text(changes.push(last)) == "已按识别结果改写: "@ + joined(changes.push(last)),
        changes.len() == 0 ==> apply_text(changes) == "当前设置与识别结果一致"@,
{
    assert(changes.push(last).drop_last() =~= changes);
}

} // verus!
