//! The sessions whose caches are kept alive: which requests open one, when a
//! keepalive is due, and what its outcome does.

use crate::cache_keepalive::body;
use crate::cache_keepalive::key;
use crate::cache_keepalive::session;
use crate::cache_keepalive::session::{
    CacheKeepaliveRegistration, CacheKeepaliveSession, CacheKeepaliveSessionSnapshot,
};
use crate::clock;
use crate::http;
use crate::json;
use crate::json::{Json, JsonView};
use crate::models;
use crate::models::{
    CacheKeepaliveMode, RequestLog, TokenUsage, UpstreamCacheKeepaliveSettings, UpstreamKind,
    WireApi,
};
use crate::table;
use crate::table::Table;
use crate::text;
use vstd::prelude::*;

verus! {

/// How long a session that was switched off is still shown, in nanoseconds.
pub const DISABLED_SESSION_RETENTION: u128 = 300_000_000_000;

/// The seconds between two scans for due sessions.
pub const SCAN_INTERVAL_SECONDS: u64 = 15;

/// The seconds that a keepalive may take.
pub const KEEPALIVE_REQUEST_TIMEOUT_SECONDS: u64 = 60;

/// The output tokens of a keepalive above which a warning is due.
pub const OUTPUT_TOKENS_WARNING_THRESHOLD: i64 = 8;

/// The sessions, by key.
pub struct CacheKeepaliveRuntime {
    pub sessions: Table<CacheKeepaliveSession>,
}

/// What became of a registration.
#[derive(Debug, Clone, Copy, PartialEq, Eq, Structural)]
pub enum RegisterOutcome {
    NotRelay,
    MissingModel,
    SettingsUnavailable,
    SettingsInactive,
    NotEnoughCachedTokens,
    TooManyCachedTokens,
    MissingSessionKey,
    Registered,
}

/// Why a session was switched off.
#[derive(Debug, Clone, Copy, PartialEq, Eq, Structural)]
pub enum DisableReason {
    SettingsDisabled,
    MaxIdleExceeded,
    NotEnoughCachedTokens,
    TooManyCachedTokens,
    MissingModelPrice,
    SmartCostRejected,
    CacheMiss,
    RequestFailed,
}

impl DisableReason {
    /// The reason in words.
    pub open spec fn words(self) -> Seq<char> {
        match self {
            DisableReason::SettingsDisabled => "settings disabled"@,
            DisableReason::MaxIdleExceeded => "max idle exceeded"@,
            DisableReason::NotEnoughCachedTokens => "not enough cached tokens"@,
            DisableReason::TooManyCachedTokens => "too many cached tokens"@,
            DisableReason::MissingModelPrice => "missing model price"@,
            DisableReason::SmartCostRejected => "smart cost rejected"@,
            DisableReason::CacheMiss => "cache miss"@,
            DisableReason::RequestFailed => "request failed"@,
        }
    }

    /// The reason in words.
    pub fn as_str(self) -> (r: &'static str)
        ensures
            r@ == self.words(),
    {
        match self {
            DisableReason::SettingsDisabled => "settings disabled",
            DisableReason::MaxIdleExceeded => "max idle exceeded",
            DisableReason::NotEnoughCachedTokens => "not enough cached tokens",
            DisableReason::TooManyCachedTokens => "too many cached tokens",
            DisableReason::MissingModelPrice => "missing model price",
            DisableReason::SmartCostRejected => "smart cost rejected",
            DisableReason::CacheMiss => "cache miss",
            DisableReason::RequestFailed => "request failed",
        }
    }
}

/// What is known of the price of a session's model: nothing, or whether the
/// cost of a keepalive is worth it.
#[derive(Debug, Clone, Copy, PartialEq, Eq, Structural)]
pub enum PriceVerdict {
    Missing,
    Worthwhile(bool),
}

/// What to do about a due session.
#[derive(Debug, Clone, Copy, PartialEq, Eq, Structural)]
pub enum KeepaliveAction {
    Disable(DisableReason),
    /// Wait for another interval; the new count of cached tokens where there
    /// is one.
    ScheduleNext(Option<i64>),
    Send,
}

/// The model that a registration names, without the space around it.
pub open spec fn model_of(registration: &CacheKeepaliveRegistration) -> Option<Seq<char>> {
    match registration.model {
        Some(model) => text::trimmed_non_empty(model@),
        None => None,
    }
}

/// The key of a registration's session.
pub open spec fn registration_key(registration: &CacheKeepaliveRegistration) -> Option<Seq<char>> {
    match model_of(registration) {
        Some(model) => key::key_of(
            registration.upstream.id@,
            model,
            registration.endpoint@,
            json::json_of_bytes(registration.body@),
        ),
        None => None,
    }
}

/// Whether a session of a registration is opened, or why not.
pub open spec fn outcome_of(
    registration: &CacheKeepaliveRegistration,
    settings: &Option<UpstreamCacheKeepaliveSettings>,
) -> RegisterOutcome {
    if registration.upstream.kind != UpstreamKind::RelayApiKey {
        RegisterOutcome::NotRelay
    } else if model_of(registration) is None {
        RegisterOutcome::MissingModel
    } else if settings is None {
        RegisterOutcome::SettingsUnavailable
    } else if !settings->0.active() {
        RegisterOutcome::SettingsInactive
    } else if registration.usage.cache_read_tokens < settings->0.min_tokens() {
        RegisterOutcome::NotEnoughCachedTokens
    } else if registration.usage.cache_read_tokens > settings->0.max_tokens() {
        RegisterOutcome::TooManyCachedTokens
    } else if registration_key(registration) is None {
        RegisterOutcome::MissingSessionKey
    } else {
        RegisterOutcome::Registered
    }
}

/// Whether a session is the one that a registration opens.
pub open spec fn is_opened_by(
    s: &CacheKeepaliveSession,
    registration: &CacheKeepaliveRegistration,
    settings: &UpstreamCacheKeepaliveSettings,
    now: u128,
) -> bool {
    &&& registration_key(registration) == Some(s.key@)
    &&& s.upstream == registration.upstream
    &&& s.endpoint == registration.endpoint
    &&& model_of(registration) == Some(s.model@)
    &&& s.body == registration.body
    &&& s.wire_api == registration.upstream.wire_api
    &&& s.cached_tokens == registration.usage.cache_read_tokens
    &&& s.keepalive_count == 0
    &&& s.last_user_request_at == now
    &&& s.last_activity_at == now
    &&& s.next_keepalive_at == now + settings.interval() * 1_000_000_000
    &&& s.disabled_reason is None
    &&& s.disabled_at is None
}

/// How many of the sessions belong to an upstream and are not switched off.
pub open spec fn active_count(
    entries: Seq<(String, CacheKeepaliveSession)>,
    upstream_id: Seq<char>,
) -> nat
    decreases entries.len(),
{
    if entries.len() == 0 {
        0
    } else {
        active_count(entries.drop_last(), upstream_id) + if entries.last().1.active_for(
            upstream_id,
        ) {
            1nat
        } else {
            0nat
        }
    }
}

/// The most sessions of an upstream that are kept: at least one.
pub open spec fn session_limit(max_active_sessions: i64) -> nat {
    models::larger(max_active_sessions, 1) as nat
}

/// Whether sessions are what is left after the least recently active ones of
/// an upstream have gone: nothing else changes, and who stays was active no
/// earlier than who goes.
pub open spec fn is_pruned(
    before: Map<Seq<char>, CacheKeepaliveSession>,
    after: Map<Seq<char>, CacheKeepaliveSession>,
    upstream_id: Seq<char>,
) -> bool {
    &&& after.submap_of(before)
    &&& forall|k: Seq<char>|
        #![trigger after.contains_key(k)]
        before.contains_key(k) && !after.contains_key(k) ==> before[k].active_for(upstream_id)
    &&& forall|gone: Seq<char>, kept: Seq<char>|
        before.contains_key(gone) && !after.contains_key(gone) && after.contains_key(kept)
            && after[kept].active_for(upstream_id) ==> (#[trigger] before[gone]).last_activity_at
            <= (#[trigger] after[kept]).last_activity_at
}

/// Taking out one session takes one off the count where it was active.
proof fn lemma_count_remove(
    entries: Seq<(String, CacheKeepaliveSession)>,
    upstream_id: Seq<char>,
    i: int,
)
    requires
        0 <= i < entries.len(),
    ensures
        active_count(entries, upstream_id) == active_count(entries.remove(i), upstream_id)
            + if entries[i].1.active_for(upstream_id) {
            1nat
        } else {
            0nat
        },
    decreases entries.len(),
{
    let last = entries.len() - 1;
    if i == last {
        assert(entries.remove(i) =~= entries.drop_last());
    } else {
        lemma_count_remove(entries.drop_last(), upstream_id, i);
        assert(entries.remove(i).drop_last() =~= entries.drop_last().remove(i));
        assert(entries.remove(i).last() == entries.last());
    }
}

/// The position of the active session of an upstream that was active longest
/// ago, and how many active ones there are.
fn oldest_active(sessions: &Table<CacheKeepaliveSession>, upstream_id: &str) -> (r: (
    usize,
    Option<usize>,
))
    ensures
        r.0 == active_count(sessions.entries(), upstream_id@),
        match r.1 {
            Some(i) => {
                &&& i < sessions.entries().len()
                &&& sessions.entries()[i as int].1.active_for(upstream_id@)
                &&& forall|j: int|
                    0 <= j < sessions.entries().len() && (#[trigger] sessions.entries()[j]).1.active_for(
                        upstream_id@,
                    ) ==> sessions.entries()[i as int].1.last_activity_at
                        <= sessions.entries()[j].1.last_activity_at
            },
            None => r.0 == 0,
        },
{
    let mut count: usize = 0;
    let mut oldest: Option<usize> = None;
    let mut i: usize = 0;
    let ghost all = sessions.entries();
    assert(all.take(0) =~= Seq::<(String, CacheKeepaliveSession)>::empty());
    while i < sessions.len()
        invariant
            all == sessions.entries(),
            i <= all.len(),
            count <= i,
            count == active_count(all.take(i as int), upstream_id@),
            match oldest {
                Some(o) => {
                    &&& o < i
                    &&& all[o as int].1.active_for(upstream_id@)
                    &&& forall|j: int|
                        0 <= j < i && (#[trigger] all[j]).1.active_for(upstream_id@)
                            ==> all[o as int].1.last_activity_at <= all[j].1.last_activity_at
                },
                None => count == 0 && forall|j: int|
                    0 <= j < i ==> !(#[trigger] all[j]).1.active_for(upstream_id@),
            },
        decreases all.len() - i,
    {
        assert(all.take(i + 1).drop_last() =~= all.take(i as int));
        assert(all.take(i + 1).last() == all[i as int]);
        let s: &CacheKeepaliveSession = &sessions.at(i).1;
        if s.is_active_for(upstream_id) {
            count = count + 1;
            oldest = match oldest {
                Some(o) => if s.last_activity_at < sessions.at(o).1.last_activity_at {
                    Some(i)
                } else {
                    Some(o)
                },
                None => Some(i),
            };
        }
        i = i + 1;
    }
    assert(all.take(i as int) =~= all);
    (count, oldest)
}

/// Takes out the least recently active sessions of an upstream until no more
/// than the limit are left.
pub fn prune_upstream_sessions(
    sessions: &mut Table<CacheKeepaliveSession>,
    upstream_id: &str,
    max_active_sessions: i64,
)
    requires
        old(sessions).wf(),
    ensures
        final(sessions).wf(),
        is_pruned(old(sessions)@, final(sessions)@, upstream_id@),
        active_count(final(sessions).entries(), upstream_id@) == if active_count(
            old(sessions).entries(),
            upstream_id@,
        ) <= session_limit(max_active_sessions) {
            active_count(old(sessions).entries(), upstream_id@)
        } else {
            session_limit(max_active_sessions)
        },
        active_count(old(sessions).entries(), upstream_id@) <= session_limit(max_active_sessions)
            ==> final(sessions)@ == old(sessions)@,
{
    let limit: u64 = models::max_of(max_active_sessions, 1) as u64;
    let ghost before = sessions@;
    let ghost start = active_count(sessions.entries(), upstream_id@);
    let mut done: bool = false;
    while !done
        invariant
            sessions.wf(),
            before == old(sessions)@,
            start == active_count(old(sessions).entries(), upstream_id@),
            limit == session_limit(max_active_sessions),
            is_pruned(before, sessions@, upstream_id@),
            start <= limit ==> active_count(sessions.entries(), upstream_id@) == start
                && sessions@ == before,
            start > limit ==> active_count(sessions.entries(), upstream_id@) >= limit,
            done ==> active_count(sessions.entries(), upstream_id@) <= limit,
        decreases sessions.entries().len() + if done {
            0int
        } else {
            1int
        },
    {
        let (count, oldest): (usize, Option<usize>) = oldest_active(sessions, upstream_id);
        if count as u64 <= limit {
            done = true;
        } else if let Some(o) = oldest {
            let ghost entries = sessions.entries();
            let ghost table = *sessions;
            let ghost key = entries[o as int].0@;
            let _removed = sessions.remove_at(o);
            proof {
                lemma_count_remove(entries, upstream_id@, o as int);
                table.lemma_entry(o as int);
                lemma_prune_step(before, table, sessions@, upstream_id@, o as int);
            }
        }
    }
}

/// Taking out the least recently active session keeps what pruning promises.
proof fn lemma_prune_step(
    before: Map<Seq<char>, CacheKeepaliveSession>,
    table: Table<CacheKeepaliveSession>,
    after: Map<Seq<char>, CacheKeepaliveSession>,
    upstream_id: Seq<char>,
    o: int,
)
    requires
        table.wf(),
        0 <= o < table.entries().len(),
        is_pruned(before, table@, upstream_id),
        after == table@.remove(table.entries()[o].0@),
        table.entries()[o].1.active_for(upstream_id),
        forall|j: int|
            0 <= j < table.entries().len() && (#[trigger] table.entries()[j]).1.active_for(
                upstream_id,
            ) ==> table.entries()[o].1.last_activity_at <= table.entries()[j].1.last_activity_at,
    ensures
        is_pruned(before, after, upstream_id),
{
    let key = table.entries()[o].0@;
    table.lemma_entry(o);
    assert forall|k: Seq<char>|
        #![trigger after.contains_key(k)]
        before.contains_key(k) && !after.contains_key(k) implies before[k].active_for(
        upstream_id,
    ) by {
        if k != key {
            assert(!table@.contains_key(k));
        }
    }
    assert forall|gone: Seq<char>, kept: Seq<char>|
        before.contains_key(gone) && !after.contains_key(gone) && after.contains_key(kept)
            && after[kept].active_for(upstream_id) implies (#[trigger] before[gone]).last_activity_at
        <= (#[trigger] after[kept]).last_activity_at by {
        assert(table@.contains_key(kept));
        assert(after[kept] == table@[kept]);
        if gone == key {
            let j = choose|j: int| table.key_at(j, kept);
            table.lemma_entry(j);
            assert(table.entries()[j].1.active_for(upstream_id));
        } else {
            assert(!table@.contains_key(gone));
        }
    }
}

/// Whether a session is another one, switched off at some moment.
pub open spec fn disabled_by(
    after: &CacheKeepaliveSession,
    before: &CacheKeepaliveSession,
    reason: Seq<char>,
    now: u128,
) -> bool {
    &&& *after == (CacheKeepaliveSession {
        disabled_reason: after.disabled_reason,
        disabled_at: Some(now),
        ..*before
    })
    &&& text::opt_view(after.disabled_reason) == Some(reason)
}

/// A session that was switched off is never due again.
pub proof fn law_disabled_is_never_due(
    after: &CacheKeepaliveSession,
    before: &CacheKeepaliveSession,
    reason: Seq<char>,
    now: u128,
    later: u128,
)
    requires
        disabled_by(after, before, reason, now),
    ensures
        !after.due(later),
{
}

/// Whether a session was switched off so long ago that it is no longer shown.
pub open spec fn is_expired(s: &CacheKeepaliveSession, now: u128) -> bool {
    match s.disabled_at {
        Some(at) => now - at >= DISABLED_SESSION_RETENTION,
        None => false,
    }
}

/// The session after another keepalive has been put off by an interval.
pub open spec fn rescheduled(
    s: CacheKeepaliveSession,
    settings: &UpstreamCacheKeepaliveSettings,
    cached_tokens: Option<i64>,
    now: u128,
) -> CacheKeepaliveSession {
    CacheKeepaliveSession {
        keepalive_count: (s.keepalive_count + 1) as i64,
        last_activity_at: now,
        next_keepalive_at: (now + settings.interval() * 1_000_000_000) as u128,
        cached_tokens: match cached_tokens {
            Some(tokens) => tokens,
            None => s.cached_tokens,
        },
        ..s
    }
}

/// Why a due session is switched off before its price is looked at.
pub open spec fn refusal_of(
    s: &CacheKeepaliveSession,
    settings: &UpstreamCacheKeepaliveSettings,
    now: u128,
) -> Option<DisableReason> {
    if !settings.active() {
        Some(DisableReason::SettingsDisabled)
    } else if now - s.last_user_request_at > settings.idle_limit() * 1_000_000_000 {
        Some(DisableReason::MaxIdleExceeded)
    } else if s.cached_tokens < settings.min_tokens() {
        Some(DisableReason::NotEnoughCachedTokens)
    } else if s.cached_tokens > settings.max_tokens() {
        Some(DisableReason::TooManyCachedTokens)
    } else {
        None
    }
}

/// Why a due session is switched off before its price is looked at.
pub fn refusal(
    s: &CacheKeepaliveSession,
    settings: &UpstreamCacheKeepaliveSettings,
    now: u128,
) -> (r: Option<DisableReason>)
    ensures
        r == refusal_of(s, settings, now),
{
    if !settings.is_active() {
        return Some(DisableReason::SettingsDisabled);
    }
    let idle_limit: u128 = models::max_of(settings.max_idle_seconds, 60) as u128 * 1_000_000_000;
    if now > s.last_user_request_at && now - s.last_user_request_at > idle_limit {
        return Some(DisableReason::MaxIdleExceeded);
    }
    let min_tokens: i64 = models::max_of(settings.min_cacheable_tokens, 1024);
    if s.cached_tokens < min_tokens {
        return Some(DisableReason::NotEnoughCachedTokens);
    }
    if s.cached_tokens > models::max_of(settings.max_cacheable_tokens, min_tokens) {
        return Some(DisableReason::TooManyCachedTokens);
    }
    None
}

/// What to do about a due session whose price has been looked up.
pub open spec fn action_for(
    s: &CacheKeepaliveSession,
    settings: &UpstreamCacheKeepaliveSettings,
    now: u128,
    price: PriceVerdict,
) -> KeepaliveAction {
    match refusal_of(s, settings, now) {
        Some(reason) => KeepaliveAction::Disable(reason),
        None => match price {
            PriceVerdict::Missing => if settings.mode == CacheKeepaliveMode::Smart {
                KeepaliveAction::Disable(DisableReason::MissingModelPrice)
            } else {
                KeepaliveAction::ScheduleNext(None)
            },
            PriceVerdict::Worthwhile(worth) => if settings.mode == CacheKeepaliveMode::Smart
                && !worth {
                KeepaliveAction::Disable(DisableReason::SmartCostRejected)
            } else {
                KeepaliveAction::Send
            },
        },
    }
}

/// What to do about a due session whose price has been looked up.
pub fn keepalive_action(
    s: &CacheKeepaliveSession,
    settings: &UpstreamCacheKeepaliveSettings,
    now: u128,
    price: PriceVerdict,
) -> (r: KeepaliveAction)
    ensures
        r == action_for(s, settings, now, price),
{
    if let Some(reason) = refusal(s, settings, now) {
        return KeepaliveAction::Disable(reason);
    }
    match price {
        PriceVerdict::Missing => {
            if settings.mode == CacheKeepaliveMode::Smart {
                KeepaliveAction::Disable(DisableReason::MissingModelPrice)
            } else {
                KeepaliveAction::ScheduleNext(None)
            }
        },
        PriceVerdict::Worthwhile(worth) => {
            if settings.mode == CacheKeepaliveMode::Smart && !worth {
                KeepaliveAction::Disable(DisableReason::SmartCostRejected)
            } else {
                KeepaliveAction::Send
            }
        },
    }
}

/// What to do after a keepalive: its usage where it was answered, nothing
/// where it failed.
pub open spec fn action_after(
    settings: &UpstreamCacheKeepaliveSettings,
    usage: Option<TokenUsage>,
) -> KeepaliveAction {
    match usage {
        Some(usage) => if usage.cache_read_tokens < settings.min_tokens() {
            KeepaliveAction::Disable(DisableReason::CacheMiss)
        } else {
            KeepaliveAction::ScheduleNext(Some(usage.cache_read_tokens))
        },
        None => KeepaliveAction::Disable(DisableReason::RequestFailed),
    }
}

/// What to do after a keepalive.
pub fn action_after_keepalive(
    settings: &UpstreamCacheKeepaliveSettings,
    usage: Option<TokenUsage>,
) -> (r: KeepaliveAction)
    ensures
        r == action_after(settings, usage),
{
    match usage {
        Some(usage) => {
            if usage.cache_read_tokens < models::max_of(settings.min_cacheable_tokens, 1024) {
                KeepaliveAction::Disable(DisableReason::CacheMiss)
            } else {
                KeepaliveAction::ScheduleNext(Some(usage.cache_read_tokens))
            }
        },
        None => KeepaliveAction::Disable(DisableReason::RequestFailed),
    }
}

/// What the answer to a keepalive holds: its tree, with nothing in it where it
/// is no JSON. An answer that says no success is an error.
pub open spec fn answer_of(
    status: u16,
    answer: Seq<u8>,
    document: Result<JsonView, Seq<char>>,
) -> Result<JsonView, Seq<char>> {
    if !http::is_success(status) {
        Err(
            "cache keepalive upstream status "@ + http::status_text(status) + ": "@
                + text::lossy_text(answer),
        )
    } else {
        match document {
            Ok(v) => Ok(v),
            Err(_) => Ok(JsonView::Null),
        }
    }
}

/// What the answer to a keepalive holds.
pub fn keepalive_answer(status: u16, answer: &[u8]) -> (r: Result<Json, String>)
    requires
        100 <= status < 1000,
    ensures
        match (r, answer_of(status, answer@, json::json_of_bytes(answer@))) {
            (Ok(value), Ok(wanted)) => value.view() == wanted,
            (Err(message), Err(wanted)) => message@ == wanted,
            _ => false,
        },
{
    if status < 200 || status >= 300 {
        let line: String = http::status_line(status);
        let told: String = text::from_utf8_lossy(answer);
        let start: String = text::concat("cache keepalive upstream status ", line.as_str());
        let message: String = text::concat3(start.as_str(), ": ", told.as_str());
        return Err(message);
    }
    match json::parse(answer) {
        Ok(value) => Ok(value),
        Err(_) => Ok(Json::Null),
    }
}

/// Whether a keepalive used more output tokens than one should.
pub fn is_talkative(usage: &TokenUsage) -> (r: bool)
    ensures
        r == (usage.output_tokens > OUTPUT_TOKENS_WARNING_THRESHOLD),
{
    usage.output_tokens > OUTPUT_TOKENS_WARNING_THRESHOLD
}

/// The log entry of a keepalive: of one that was answered its usage, of one
/// that failed the error.
pub fn keepalive_log(
    s: &CacheKeepaliveSession,
    outcome: Result<TokenUsage, String>,
    duration_ms: i64,
) -> (r: RequestLog)
    requires
        outcome matches Ok(usage) ==> (usage.total_tokens == 0 ==> usage.sum_fits()),
    ensures
        r.ts is None,
        text::opt_view(r.upstream_id) == Some(s.upstream.id@),
        text::opt_view(r.upstream_name) == Some(s.upstream.name@),
        r.endpoint@ == "/internal/cache_keepalive"@,
        text::opt_view(r.model) == Some(s.model@),
        r.reasoning_effort is None,
        r.estimated_cost_usd is None,
        r.duration_ms == duration_ms,
        r.first_token_ms is None,
        match outcome {
            Ok(usage) => r.status == 200 && r.usage == usage.finished() && r.error is None,
            Err(message) => r.status == 502 && r.usage.is_none() && r.error == Some(message),
        },
{
    let (status, usage, error): (i64, TokenUsage, Option<String>) = match outcome {
        Ok(usage) => (200, body::normalized_keepalive_usage(usage), None),
        Err(message) => (502, TokenUsage::default(), Some(message)),
    };
    RequestLog {
        ts: None,
        upstream_id: Some(s.upstream.id.clone()),
        upstream_name: Some(s.upstream.name.clone()),
        endpoint: "/internal/cache_keepalive".to_string(),
        model: Some(s.model.clone()),
        reasoning_effort: None,
        status,
        usage,
        estimated_cost_usd: None,
        duration_ms,
        first_token_ms: None,
        error,
    }
}

/// The endpoint that a keepalive goes to: the session's own where it speaks
/// the responses interface.
pub open spec fn endpoint_of(s: &CacheKeepaliveSession) -> Seq<char> {
    match s.wire_api {
        WireApi::Responses => s.endpoint@,
        WireApi::ChatCompletions => "/chat/completions"@,
        WireApi::AnthropicMessages => "/messages"@,
    }
}

/// The endpoint that a keepalive goes to.
pub fn keepalive_endpoint(s: &CacheKeepaliveSession) -> (r: String)
    ensures
        r@ == endpoint_of(s),
{
    match s.wire_api {
        WireApi::Responses => s.endpoint.clone(),
        WireApi::ChatCompletions => "/chat/completions".to_string(),
        WireApi::AnthropicMessages => "/messages".to_string(),
    }
}

impl CacheKeepaliveRuntime {
    /// Every session is kept under its own key, and its times are readings of
    /// the clock.
    pub open spec fn wf(&self) -> bool {
        &&& self.sessions.wf()
        &&& forall|k: Seq<char>|
            #![trigger self.sessions@[k]]
            self.sessions@.contains_key(k) ==> self.sessions@[k].key@ == k && self.sessions@[k].wf()
    }

    /// No sessions.
    pub fn new() -> (r: Self)
        ensures
            r.wf(),
            r.sessions@ == Map::<Seq<char>, CacheKeepaliveSession>::empty(),
    {
        CacheKeepaliveRuntime { sessions: Table::new() }
    }

    /// Opens a session for a request, where its upstream is a relay whose
    /// settings ask for it and the upstream's cache held enough of the
    /// request, and not too much; then the least recently active sessions of
    /// the upstream go until no more than the limit are left.
    pub fn register(
        &mut self,
        registration: CacheKeepaliveRegistration,
        settings: &Option<UpstreamCacheKeepaliveSettings>,
        now: u128,
    ) -> (r: RegisterOutcome)
        requires
            old(self).wf(),
            clock::is_instant(now),
            settings matches Some(s) ==> clock::is_instant(
                (now + s.interval() * 1_000_000_000) as u128,
            ),
        ensures
            final(self).wf(),
            r == outcome_of(&registration, settings),
            r != RegisterOutcome::Registered ==> final(self).sessions@ == old(self).sessions@,
            r == RegisterOutcome::Registered ==> exists|s: CacheKeepaliveSession|
                #![trigger old(self).sessions@.insert(s.key@, s)]
                {
                    let with = old(self).sessions@.insert(s.key@, s);
                    let id = settings->0.upstream_id@;
                    let limit = session_limit(settings->0.max_active_sessions);
                    let count = active_count(final(self).sessions.entries(), id);
                    &&& is_opened_by(&s, &registration, &settings->0, now)
                    &&& is_pruned(with, final(self).sessions@, id)
                    &&& count <= limit
                    &&& count < limit ==> final(self).sessions@ == with
                },
    {
        if registration.upstream.kind != UpstreamKind::RelayApiKey {
            return RegisterOutcome::NotRelay;
        }
        let model: Option<String> = match &registration.model {
            Some(model) => text::trimmed_string(model.as_str()),
            None => None,
        };
        let model: String = match model {
            Some(model) => model,
            None => {
                return RegisterOutcome::MissingModel;
            },
        };
        let settings: &UpstreamCacheKeepaliveSettings = match settings {
            Some(settings) => settings,
            None => {
                return RegisterOutcome::SettingsUnavailable;
            },
        };
        if !settings.is_active() {
            return RegisterOutcome::SettingsInactive;
        }
        let min_tokens: i64 = models::max_of(settings.min_cacheable_tokens, 1024);
        if registration.usage.cache_read_tokens < min_tokens {
            return RegisterOutcome::NotEnoughCachedTokens;
        }
        if registration.usage.cache_read_tokens > models::max_of(
            settings.max_cacheable_tokens,
            min_tokens,
        ) {
            return RegisterOutcome::TooManyCachedTokens;
        }
        let key: String = match key::session_key(
            registration.upstream.id.as_str(),
            model.as_str(),
            registration.endpoint.as_str(),
            registration.body.as_slice(),
        ) {
            Some(key) => key,
            None => {
                return RegisterOutcome::MissingSessionKey;
            },
        };
        let interval: u128 = models::max_of(settings.interval_seconds, 60) as u128 * 1_000_000_000;
        let wire_api: WireApi = registration.upstream.wire_api;
        let cached_tokens: i64 = registration.usage.cache_read_tokens;
        let opened = CacheKeepaliveSession {
            key: key.clone(),
            upstream: registration.upstream,
            endpoint: registration.endpoint,
            model,
            body: registration.body,
            wire_api,
            cached_tokens,
            keepalive_count: 0,
            last_user_request_at: now,
            last_activity_at: now,
            next_keepalive_at: now + interval,
            disabled_reason: None,
            disabled_at: None,
        };
        let ghost s = opened;
        let ghost with = self.sessions@.insert(s.key@, s);
        self.sessions.insert(key, opened);
        assert(self.sessions@ == with);
        prune_upstream_sessions(
            &mut self.sessions,
            settings.upstream_id.as_str(),
            settings.max_active_sessions,
        );
        proof {
            assert(is_opened_by(&s, &registration, settings, now));
            assert forall|k: Seq<char>|
                #![trigger self.sessions@[k]]
                self.sessions@.contains_key(k) implies self.sessions@[k].key@ == k
                && self.sessions@[k].wf() by {
                assert(with.contains_key(k));
                assert(with[k] == self.sessions@[k]);
                if k != s.key@ {
                    assert(old(self).sessions@[k] == with[k]);
                }
            }
        }
        RegisterOutcome::Registered
    }

    /// Takes out the session under a key; whether there was one.
    pub fn remove_session(&mut self, key: &str) -> (r: bool)
        requires
            old(self).wf(),
        ensures
            final(self).wf(),
            final(self).sessions@ == old(self).sessions@.remove(key@),
            r == old(self).sessions@.contains_key(key@),
    {
        let removed: Option<CacheKeepaliveSession> = self.sessions.remove(key);
        removed.is_some()
    }

    /// Switches off the session under a key, unless it is off already; whether
    /// anything changed.
    pub fn disable_session(&mut self, key: &str, reason: &str, now: u128) -> (r: bool)
        requires
            old(self).wf(),
            clock::is_instant(now),
        ensures
            final(self).wf(),
            r == (old(self).sessions@.contains_key(key@) && old(
                self,
            ).sessions@[key@].disabled_reason is None),
            !r ==> final(self).sessions@ == old(self).sessions@,
            r ==> {
                &&& final(self).sessions@.contains_key(key@)
                &&& disabled_by(
                    &final(self).sessions@[key@],
                    &old(self).sessions@[key@],
                    reason@,
                    now,
                )
                &&& final(self).sessions@ == old(self).sessions@.insert(
                    key@,
                    final(self).sessions@[key@],
                )
            },
    {
        match self.sessions.find(key) {
            Some(i) => {
                if self.sessions.at(i).1.disabled_reason.is_some() {
                    return false;
                }
                let ghost before = self.sessions;
                let s: &mut CacheKeepaliveSession = self.sessions.value_mut(i);
                s.disabled_reason = Some(reason.to_string());
                s.disabled_at = Some(now);
                proof {
                    table::lemma_update_map(
                        before,
                        self.sessions,
                        i as int,
                        self.sessions.entries()[i as int].1,
                    );
                }
                true
            },
            None => false,
        }
    }

    /// Puts off the next keepalive of the session under a key by an interval;
    /// whether there is such a session.
    pub fn schedule_next(
        &mut self,
        key: &str,
        settings: &UpstreamCacheKeepaliveSettings,
        cached_tokens: Option<i64>,
        now: u128,
    ) -> (r: bool)
        requires
            old(self).wf(),
            clock::is_instant(now),
            clock::is_instant((now + settings.interval() * 1_000_000_000) as u128),
            old(self).sessions@.contains_key(key@) ==> old(self).sessions@[key@].keepalive_count
                < i64::MAX,
        ensures
            final(self).wf(),
            r == old(self).sessions@.contains_key(key@),
            final(self).sessions@ == if r {
                old(self).sessions@.insert(
                    key@,
                    rescheduled(old(self).sessions@[key@], settings, cached_tokens, now),
                )
            } else {
                old(self).sessions@
            },
    {
        let interval: u128 = models::max_of(settings.interval_seconds, 60) as u128 * 1_000_000_000;
        match self.sessions.find(key) {
            Some(i) => {
                let ghost before = self.sessions;
                let s: &mut CacheKeepaliveSession = self.sessions.value_mut(i);
                s.keepalive_count = s.keepalive_count + 1;
                s.last_activity_at = now;
                s.next_keepalive_at = now + interval;
                if let Some(tokens) = cached_tokens {
                    s.cached_tokens = tokens;
                }
                proof {
                    table::lemma_update_map(
                        before,
                        self.sessions,
                        i as int,
                        self.sessions.entries()[i as int].1,
                    );
                }
                true
            },
            None => false,
        }
    }

    /// Does what was decided about the session under a key; whether anything
    /// changed.
    pub fn apply_action(
        &mut self,
        key: &str,
        settings: &UpstreamCacheKeepaliveSettings,
        action: KeepaliveAction,
        now: u128,
    ) -> (r: bool)
        requires
            old(self).wf(),
            clock::is_instant(now),
            clock::is_instant((now + settings.interval() * 1_000_000_000) as u128),
            old(self).sessions@.contains_key(key@) ==> old(self).sessions@[key@].keepalive_count
                < i64::MAX,
        ensures
            final(self).wf(),
            r == match action {
                KeepaliveAction::Disable(_) => old(self).sessions@.contains_key(key@) && old(
                    self,
                ).sessions@[key@].disabled_reason is None,
                KeepaliveAction::ScheduleNext(_) => old(self).sessions@.contains_key(key@),
                KeepaliveAction::Send => false,
            },
            !r ==> final(self).sessions@ == old(self).sessions@,
            r ==> {
                &&& final(self).sessions@.contains_key(key@)
                &&& final(self).sessions@ == old(self).sessions@.insert(
                    key@,
                    final(self).sessions@[key@],
                )
                &&& match action {
                    KeepaliveAction::Disable(reason) => disabled_by(
                        &final(self).sessions@[key@],
                        &old(self).sessions@[key@],
                        reason.words(),
                        now,
                    ),
                    KeepaliveAction::ScheduleNext(tokens) => final(self).sessions@[key@]
                        == rescheduled(old(self).sessions@[key@], settings, tokens, now),
                    KeepaliveAction::Send => false,
                }
            },
    {
        match action {
            KeepaliveAction::Disable(reason) => self.disable_session(key, reason.as_str(), now),
            KeepaliveAction::ScheduleNext(tokens) => self.schedule_next(key, settings, tokens, now),
            KeepaliveAction::Send => false,
        }
    }

    /// Switches off every session of an upstream that is not off already; how
    /// many there were.
    pub fn disable_upstream_sessions(
        &mut self,
        upstream_id: &str,
        reason: &str,
        now: u128,
    ) -> (r: usize)
        requires
            old(self).wf(),
            clock::is_instant(now),
        ensures
            final(self).wf(),
            r == active_count(old(self).sessions.entries(), upstream_id@),
            final(self).sessions@.dom() == old(self).sessions@.dom(),
            forall|k: Seq<char>|
                #![trigger final(self).sessions@[k]]
                old(self).sessions@.contains_key(k) ==> if old(self).sessions@[k].active_for(
                    upstream_id@,
                ) {
                    disabled_by(&final(self).sessions@[k], &old(self).sessions@[k], reason@, now)
                } else {
                    final(self).sessions@[k] == old(self).sessions@[k]
                },
    {
        let ghost first = self.sessions;
        let ghost all = self.sessions.entries();
        let mut count: usize = 0;
        let mut i: usize = 0;
        assert(all.take(0) =~= Seq::<(String, CacheKeepaliveSession)>::empty());
        while i < self.sessions.len()
            invariant
                clock::is_instant(now),
                first == old(self).sessions,
                old(self).wf(),
                all == first.entries(),
                self.wf(),
                self.sessions.entries().len() == all.len(),
                i <= all.len(),
                count <= i,
                count == active_count(all.take(i as int), upstream_id@),
                forall|j: int|
                    0 <= j < all.len() ==> (#[trigger] self.sessions.entries()[j]).0 == all[j].0,
                forall|j: int|
                    i <= j < all.len() ==> (#[trigger] self.sessions.entries()[j]) == all[j],
                self.sessions@.dom() == first@.dom(),
                forall|j: int|
                    0 <= j < i ==> if (#[trigger] all[j]).1.active_for(upstream_id@) {
                        disabled_by(&self.sessions.entries()[j].1, &all[j].1, reason@, now)
                    } else {
                        self.sessions.entries()[j] == all[j]
                    },
            decreases all.len() - i,
        {
            assert(all.take(i + 1).drop_last() =~= all.take(i as int));
            assert(all.take(i + 1).last() == all[i as int]);
            if self.sessions.at(i).1.is_active_for(upstream_id) {
                let ghost before = self.sessions;
                proof {
                    before.lemma_entry(i as int);
                }
                let s: &mut CacheKeepaliveSession = self.sessions.value_mut(i);
                s.disabled_reason = Some(reason.to_string());
                s.disabled_at = Some(now);
                count = count + 1;
                proof {
                    table::lemma_update_map(
                        before,
                        self.sessions,
                        i as int,
                        self.sessions.entries()[i as int].1,
                    );
                    assert(self.sessions@.dom() =~= first@.dom());
                    assert(self.wf());
                }
            }
            i = i + 1;
        }
        assert(all.take(i as int) =~= all);
        proof {
            assert forall|k: Seq<char>|
                #![trigger self.sessions@[k]]
                first@.contains_key(k) implies if first@[k].active_for(upstream_id@) {
                disabled_by(&self.sessions@[k], &first@[k], reason@, now)
            } else {
                self.sessions@[k] == first@[k]
            } by {
                let j = choose|j: int| first.key_at(j, k);
                first.lemma_entry(j);
                self.sessions.lemma_entry(j);
                assert(self.sessions.entries()[j].0 == all[j].0);
                assert(all[j] == all[j]);
            }
        }
        count
    }

    /// Takes out the sessions that were switched off too long ago; how many
    /// there were.
    pub fn prune_disabled_sessions(&mut self, now: u128) -> (r: usize)
        requires
            old(self).wf(),
        ensures
            final(self).wf(),
            final(self).sessions@.submap_of(old(self).sessions@),
            forall|k: Seq<char>|
                #![trigger final(self).sessions@.contains_key(k)]
                old(self).sessions@.contains_key(k) ==> (final(self).sessions@.contains_key(k)
                    <==> !is_expired(&old(self).sessions@[k], now)),
            r == old(self).sessions.entries().len() - final(self).sessions.entries().len(),
    {
        let ghost first = self.sessions;
        let count: usize = self.sessions.len();
        let mut i: usize = 0;
        while i < self.sessions.len()
            invariant
                first == old(self).sessions,
                old(self).wf(),
                self.wf(),
                i <= self.sessions.entries().len() <= first.entries().len(),
                self.sessions@.submap_of(first@),
                forall|k: Seq<char>|
                    #![trigger self.sessions@.contains_key(k)]
                    first@.contains_key(k) && !self.sessions@.contains_key(k) ==> is_expired(
                        &first@[k],
                        now,
                    ),
                forall|j: int|
                    0 <= j < i ==> !is_expired(&(#[trigger] self.sessions.entries()[j]).1, now),
            decreases self.sessions.entries().len() - i,
        {
            let ghost before = self.sessions;
            proof {
                before.lemma_entry(i as int);
            }
            let expired: bool = match self.sessions.at(i).1.disabled_at {
                Some(at) => now >= at && now - at >= DISABLED_SESSION_RETENTION,
                None => false,
            };
            if expired {
                let _gone = self.sessions.remove_at(i);
            } else {
                i = i + 1;
            }
        }
        proof {
            assert forall|k: Seq<char>|
                #![trigger self.sessions@.contains_key(k)]
                self.sessions@.contains_key(k) implies !is_expired(&first@[k], now) by {
                let j = choose|j: int| self.sessions.key_at(j, k);
                self.sessions.lemma_entry(j);
            }
        }
        count - self.sessions.len()
    }

    /// The sessions for which a keepalive is due.
    pub fn due_sessions(&self, now: u128) -> (r: Vec<CacheKeepaliveSession>)
        requires
            self.wf(),
        ensures
            forall|i: int|
                #![trigger r@[i]]
                0 <= i < r@.len() ==> {
                    &&& self.sessions@.contains_key(r@[i].key@)
                    &&& r@[i].same_as(&self.sessions@[r@[i].key@])
                    &&& r@[i].due(now)
                },
            forall|k: Seq<char>|
                #![trigger self.sessions@[k]]
                self.sessions@.contains_key(k) && self.sessions@[k].due(now) ==> exists|i: int|
                    0 <= i < r@.len() && (#[trigger] r@[i]).key@ == k,
            forall|i: int, j: int|
                0 <= i < j < r@.len() ==> (#[trigger] r@[i]).key@ != (#[trigger] r@[j]).key@,
    {
        let mut out: Vec<CacheKeepaliveSession> = Vec::new();
        let ghost all = self.sessions.entries();
        let ghost mut from: Seq<int> = Seq::empty();
        let mut i: usize = 0;
        while i < self.sessions.len()
            invariant
                self.wf(),
                all == self.sessions.entries(),
                i <= all.len(),
                from.len() == out@.len(),
                forall|m: int|
                    0 <= m < from.len() ==> 0 <= #[trigger] from[m] < i && out@[m].same_as(
                        &all[from[m]].1,
                    ) && out@[m].due(now),
                forall|m: int, n: int|
                    0 <= m < n < from.len() ==> #[trigger] from[m] < #[trigger] from[n],
                forall|e: int|
                    0 <= e < i && (#[trigger] all[e]).1.due(now) ==> from.contains(e),
            decreases all.len() - i,
        {
            let s: &CacheKeepaliveSession = &self.sessions.at(i).1;
            let ghost earlier = from;
            if s.disabled_reason.is_none() && s.next_keepalive_at <= now {
                out.push(s.copy());
                proof {
                    from = from.push(i as int);
                    assert(from[from.len() - 1] == i);
                }
            }
            proof {
                assert forall|e: int| 0 <= e < i + 1 && (#[trigger] all[e]).1.due(
                    now,
                ) implies from.contains(e) by {
                    if e < i {
                        let m = choose|m: int| 0 <= m < earlier.len() && earlier[m] == e;
                        assert(from[m] == e);
                    }
                }
            }
            i = i + 1;
        }
        proof {
            assert forall|m: int| #![trigger out@[m]] 0 <= m < out@.len() implies {
                &&& self.sessions@.contains_key(out@[m].key@)
                &&& out@[m].same_as(&self.sessions@[out@[m].key@])
                &&& out@[m].due(now)
            } by {
                self.sessions.lemma_entry(from[m]);
                assert(self.sessions@[all[from[m]].0@].key@ == all[from[m]].0@);
            }
            assert forall|k: Seq<char>|
                #![trigger self.sessions@[k]]
                self.sessions@.contains_key(k) && self.sessions@[k].due(now) implies exists|
                m: int,
            | 0 <= m < out@.len() && (#[trigger] out@[m]).key@ == k by {
                let e = choose|e: int| self.sessions.key_at(e, k);
                self.sessions.lemma_entry(e);
                assert(all[e].1.due(now));
                let m = choose|m: int| 0 <= m < from.len() && from[m] == e;
                assert(out@[m].key@ == k);
            }
            assert forall|m: int, n: int| 0 <= m < n < out@.len() implies (
            #[trigger] out@[m]).key@ != (#[trigger] out@[n]).key@ by {
                assert(from[m] < from[n]);
                self.sessions.lemma_entry(from[m]);
                self.sessions.lemma_entry(from[n]);
                assert(self.sessions@[all[from[m]].0@].key@ == all[from[m]].0@);
                assert(self.sessions@[all[from[n]].0@].key@ == all[from[n]].0@);
            }
        }
        out
    }

    /// What is shown of the sessions, in the listing order.
    pub fn snapshots(&self, now: u128) -> (r: Vec<CacheKeepaliveSessionSnapshot>)
        requires
            self.wf(),
            clock::is_instant(now),
        ensures
            forall|i: int|
                #![trigger r@[i]]
                0 <= i < r@.len() ==> {
                    &&& self.sessions@.contains_key(r@[i].key@)
                    &&& self.sessions@[r@[i].key@].shown_by(&r@[i], now)
                },
            forall|k: Seq<char>|
                #![trigger self.sessions@.contains_key(k)]
                self.sessions@.contains_key(k) ==> exists|i: int|
                    0 <= i < r@.len() && (#[trigger] r@[i]).key@ == k,
            forall|i: int, j: int|
                0 <= i < j < r@.len() ==> session::listed_before(
                    &#[trigger] r@[i],
                    &#[trigger] r@[j],
                ),
    {
        let mut out: Vec<CacheKeepaliveSessionSnapshot> = Vec::new();
        let ghost all = self.sessions.entries();
        let ghost mut from: Seq<int> = Seq::empty();
        let mut i: usize = 0;
        while i < self.sessions.len()
            invariant
                self.wf(),
                clock::is_instant(now),
                all == self.sessions.entries(),
                i <= all.len(),
                from.len() == out@.len(),
                from.len() == i,
                forall|m: int|
                    0 <= m < from.len() ==> 0 <= #[trigger] from[m] < i && all[from[m]].1.shown_by(
                        &out@[m],
                        now,
                    ),
                forall|e: int| 0 <= e < i ==> #[trigger] from.contains(e),
                is_listed(out@),
            decreases all.len() - i,
        {
            proof {
                self.sessions.lemma_entry(i as int);
                assert(self.sessions@[all[i as int].0@].wf());
            }
            let s: CacheKeepaliveSessionSnapshot = self.sessions.at(i).1.snapshot(now);
            let ghost earlier = from;
            let ghost before = out@;
            proof {
                assert forall|m: int| 0 <= m < before.len() implies (#[trigger] before[m]).key@
                    != s.key@ by {
                    self.sessions.lemma_entry(from[m]);
                    assert(self.sessions@[all[from[m]].0@].key@ == all[from[m]].0@);
                    assert(self.sessions@[all[i as int].0@].key@ == all[i as int].0@);
                    assert(all[from[m]].0@ != all[i as int].0@);
                }
            }
            let at: usize = insert_listed(&mut out, s);
            proof {
                from = from.insert(at as int, i as int);
                assert(from[at as int] == i);
                assert forall|e: int| 0 <= e < i + 1 implies #[trigger] from.contains(e) by {
                    if e < i {
                        assert(earlier.contains(e));
                        let m = choose|m: int| 0 <= m < earlier.len() && earlier[m] == e;
                        assert(from[if m < at {
                            m
                        } else {
                            m + 1
                        }] == e);
                    }
                }
                assert forall|m: int| 0 <= m < from.len() implies 0 <= #[trigger] from[m] < i + 1
                    && all[from[m]].1.shown_by(&out@[m], now) by {
                    if m < at {
                        assert(from[m] == earlier[m]);
                        assert(out@[m] == before[m]);
                    } else if m > at {
                        assert(from[m] == earlier[m - 1]);
                        assert(out@[m] == before[m - 1]);
                    }
                }
            }
            i = i + 1;
        }
        proof {
            assert forall|m: int| #![trigger out@[m]] 0 <= m < out@.len() implies {
                &&& self.sessions@.contains_key(out@[m].key@)
                &&& self.sessions@[out@[m].key@].shown_by(&out@[m], now)
            } by {
                self.sessions.lemma_entry(from[m]);
                assert(self.sessions@[all[from[m]].0@].key@ == all[from[m]].0@);
            }
            assert forall|k: Seq<char>|
                #![trigger self.sessions@.contains_key(k)]
                self.sessions@.contains_key(k) implies exists|m: int|
                0 <= m < out@.len() && (#[trigger] out@[m]).key@ == k by {
                let e = choose|e: int| self.sessions.key_at(e, k);
                self.sessions.lemma_entry(e);
                assert(from.contains(e));
                let m = choose|m: int| 0 <= m < from.len() && from[m] == e;
                assert(out@[m].key@ == k);
            }
        }
        out
    }
}

/// Whether snapshots stand in the listing order.
pub open spec fn is_listed(s: Seq<CacheKeepaliveSessionSnapshot>) -> bool {
    forall|i: int, j: int|
        0 <= i < j < s.len() ==> session::listed_before(&#[trigger] s[i], &#[trigger] s[j])
}

/// Puts a snapshot in its place among listed ones.
fn insert_listed(
    list: &mut Vec<CacheKeepaliveSessionSnapshot>,
    s: CacheKeepaliveSessionSnapshot,
) -> (at: usize)
    requires
        is_listed(old(list)@),
        forall|m: int| 0 <= m < old(list)@.len() ==> (#[trigger] old(list)@[m]).key@ != s.key@,
    ensures
        at <= old(list)@.len(),
        final(list)@ == old(list)@.insert(at as int, s),
        is_listed(final(list)@),
{
    let ghost before = list@;
    let mut at: usize = 0;
    while at < list.len() && !session::is_listed_before(&s, &list[at])
        invariant
            list@ == before,
            at <= before.len(),
            forall|m: int| 0 <= m < at ==> !session::listed_before(&s, &#[trigger] before[m]),
        decreases before.len() - at,
    {
        at = at + 1;
    }
    list.insert(at, s);
    proof {
        let after = list@;
        assert forall|i: int, j: int| 0 <= i < j < after.len() implies session::listed_before(
            &#[trigger] after[i],
            &#[trigger] after[j],
        ) by {
            if j < at {
                assert(after[i] == before[i] && after[j] == before[j]);
            } else if j == at {
                assert(after[i] == before[i]);
                session::lemma_listing_total(&after[i], &s);
            } else if i > at {
                assert(after[i] == before[i - 1] && after[j] == before[j - 1]);
            } else {
                assert(after[j] == before[j - 1]);
                if j - 1 > at {
                    session::lemma_listing_transitive(&s, &before[at as int], &before[j - 1]);
                }
                if i < at {
                    assert(after[i] == before[i]);
                }
            }
        }
    }
    at
}

/// A keepalive is sent for a session exactly where nothing speaks against it:
/// the settings keep caches alive, the user asked for something no longer ago
/// than the idle limit and a minute, as many tokens are cached as the bounds
/// allow, and the price is known. The cost is weighed in the smart mode alone.
pub proof fn law_keepalive_is_sent(
    s: &CacheKeepaliveSession,
    settings: &UpstreamCacheKeepaliveSettings,
    now: u128,
    price: PriceVerdict,
)
    ensures
        ({
            let idle = now - s.last_user_request_at;
            let on = settings.enabled && settings.mode != CacheKeepaliveMode::Off;
            let awake = idle <= 60_000_000_000 || idle <= settings.max_idle_seconds * 1_000_000_000;
            let enough = s.cached_tokens >= 1024 && s.cached_tokens
                >= settings.min_cacheable_tokens;
            let few = s.cached_tokens <= settings.max_cacheable_tokens || s.cached_tokens
                <= settings.min_cacheable_tokens || s.cached_tokens <= 1024;
            let live = on && awake && enough && few;
            let action = action_for(s, settings, now, price);
            &&& live && settings.mode == CacheKeepaliveMode::Always && price != PriceVerdict::Missing
                ==> action == KeepaliveAction::Send
            &&& live && settings.mode == CacheKeepaliveMode::Smart ==> (action
                == KeepaliveAction::Send <==> price == PriceVerdict::Worthwhile(true))
            &&& action == KeepaliveAction::Send ==> live && price != PriceVerdict::Missing
            &&& (action matches KeepaliveAction::ScheduleNext(tokens) ==> tokens is None && live
                && settings.mode == CacheKeepaliveMode::Always && price == PriceVerdict::Missing)
            &&& live && settings.mode == CacheKeepaliveMode::Always ==> !(action is Disable)
            &&& !on ==> action == KeepaliveAction::Disable(DisableReason::SettingsDisabled)
            &&& on && !awake ==> action == KeepaliveAction::Disable(
                DisableReason::MaxIdleExceeded,
            )
            &&& on && awake && !enough ==> action == KeepaliveAction::Disable(
                DisableReason::NotEnoughCachedTokens,
            )
            &&& on && awake && enough && !few ==> action == KeepaliveAction::Disable(
                DisableReason::TooManyCachedTokens,
            )
            &&& live && action is Disable ==> action == KeepaliveAction::Disable(
                if price == PriceVerdict::Missing {
                    DisableReason::MissingModelPrice
                } else {
                    DisableReason::SmartCostRejected
                },
            )
        }),
{
}

/// A session lives on after its keepalive exactly where the answer read enough
/// of it from the cache, and then holds what was read; a failure or a miss ends
/// it. More that was read never ends it.
pub proof fn law_keepalive_lives_on_its_cache(
    settings: &UpstreamCacheKeepaliveSettings,
    usage: TokenUsage,
    more: TokenUsage,
)
    ensures
        ({
            let action = action_after(settings, Some(usage));
            let hit = usage.cache_read_tokens >= 1024 && usage.cache_read_tokens
                >= settings.min_cacheable_tokens;
            &&& hit ==> action == KeepaliveAction::ScheduleNext(Some(usage.cache_read_tokens))
            &&& !hit ==> action == KeepaliveAction::Disable(DisableReason::CacheMiss)
            &&& action is ScheduleNext && more.cache_read_tokens >= usage.cache_read_tokens
                ==> action_after(settings, Some(more)) is ScheduleNext
            &&& action_after(settings, None) == KeepaliveAction::Disable(
                DisableReason::RequestFailed,
            )
        }),
{
}

/// A session that is put off is due again after its interval, at least a
/// minute, and not before; it counts one keepalive more, stays the session of
/// the same request, and the user's last request is not touched.
pub proof fn law_rescheduled_is_due_after_the_interval(
    s: CacheKeepaliveSession,
    settings: &UpstreamCacheKeepaliveSettings,
    cached_tokens: Option<i64>,
    now: u128,
    later: u128,
)
    requires
        clock::is_instant(now),
        s.keepalive_count < i64::MAX,
    ensures
        ({
            let after = rescheduled(s, settings, cached_tokens, now);
            &&& s.disabled_reason is None ==> (after.due(later) <==> later - now >= 60_000_000_000
                && later - now >= settings.interval_seconds * 1_000_000_000)
            &&& after.keepalive_count == s.keepalive_count + 1
            &&& after.last_activity_at == now
            &&& after.last_user_request_at == s.last_user_request_at
            &&& after.cached_tokens == (if cached_tokens is Some {
                cached_tokens->0
            } else {
                s.cached_tokens
            })
            &&& after.key == s.key && after.upstream == s.upstream && after.model == s.model
            &&& after.body == s.body && after.endpoint == s.endpoint && after.wire_api
                == s.wire_api
            &&& after.disabled_reason == s.disabled_reason && after.disabled_at == s.disabled_at
        }),
{
}

/// A session is opened exactly for a request to a relay, with a model and a
/// key, where the settings keep caches alive and as many tokens came from the
/// cache as the bounds allow; the first thing that is missing is named.
pub proof fn law_registration_needs_a_cached_relay_request(
    registration: &CacheKeepaliveRegistration,
    settings: &Option<UpstreamCacheKeepaliveSettings>,
)
    ensures
        ({
            let outcome = outcome_of(registration, settings);
            let read = registration.usage.cache_read_tokens;
            let relay = registration.upstream.kind == UpstreamKind::RelayApiKey;
            let named = registration.model is Some && text::trimmed(registration.model->0@).len()
                > 0;
            let on = settings is Some && settings->0.enabled && settings->0.mode
                != CacheKeepaliveMode::Off;
            let enough = read >= 1024 && read >= settings->0.min_cacheable_tokens;
            let few = read <= settings->0.max_cacheable_tokens || read
                <= settings->0.min_cacheable_tokens || read <= 1024;
            let keyed = registration_key(registration) is Some;
            &&& outcome == RegisterOutcome::Registered <==> relay && named && on && enough && few
                && keyed
            &&& outcome == RegisterOutcome::NotRelay <==> !relay
            &&& outcome == RegisterOutcome::MissingModel <==> relay && !named
            &&& outcome == RegisterOutcome::SettingsUnavailable <==> relay && named
                && settings is None
            &&& outcome == RegisterOutcome::SettingsInactive <==> relay && named
                && settings is Some && !on
            &&& outcome == RegisterOutcome::NotEnoughCachedTokens <==> relay && named && on
                && !enough
            &&& outcome == RegisterOutcome::TooManyCachedTokens <==> relay && named && on && enough
                && !few
        }),
{
}

/// A session that was just opened is due after its interval, at least a minute,
/// and not before, and its keepalive repeats the request.
pub proof fn law_opened_session_repeats_its_request(
    s: &CacheKeepaliveSession,
    registration: &CacheKeepaliveRegistration,
    settings: &UpstreamCacheKeepaliveSettings,
    now: u128,
    later: u128,
)
    requires
        is_opened_by(s, registration, settings, now),
    ensures
        s.due(later) <==> later - now >= 60_000_000_000 && later - now >= settings.interval_seconds
            * 1_000_000_000,
        s.body@ == registration.body@,
        s.upstream.id@ == registration.upstream.id@,
        registration.model is Some && s.model@ == text::trimmed(registration.model->0@),
        s.cached_tokens == registration.usage.cache_read_tokens,
        s.keepalive_count == 0 && s.last_user_request_at == now,
        s.wire_api == WireApi::Responses ==> endpoint_of(s) == registration.endpoint@,
        s.wire_api == WireApi::ChatCompletions ==> endpoint_of(s) == "/chat/completions"@,
        s.wire_api == WireApi::AnthropicMessages ==> endpoint_of(s) == "/messages"@,
{
}

/// A session that was switched off is shown for five minutes, and one that was
/// not stays.
pub proof fn law_switched_off_session_is_shown_for_a_while(s: &CacheKeepaliveSession, now: u128)
    ensures
        s.disabled_at is None ==> !is_expired(s, now),
        s.disabled_at is Some ==> (is_expired(s, now) <==> now - s.disabled_at->0
            >= 300_000_000_000),
{
}

/// Of an upstream's sessions those go that were active longest ago: one that
/// goes was active no later than one that stays. Sessions of other upstreams
/// and those that are switched off stay, and none changes.
pub proof fn law_latest_sessions_stay(
    before: Map<Seq<char>, CacheKeepaliveSession>,
    after: Map<Seq<char>, CacheKeepaliveSession>,
    upstream_id: Seq<char>,
    gone: Seq<char>,
    kept: Seq<char>,
)
    requires
        is_pruned(before, after, upstream_id),
        before.contains_key(gone),
        before.contains_key(kept),
    ensures
        !after.contains_key(gone) ==> before[gone].upstream.id@ == upstream_id
            && before[gone].disabled_reason is None,
        after.contains_key(kept) ==> after[kept] == before[kept],
        !after.contains_key(gone) && after.contains_key(kept) && before[kept].upstream.id@
            == upstream_id && before[kept].disabled_reason is None
            ==> before[gone].last_activity_at <= before[kept].last_activity_at,
{
}

/// As many sessions are kept as the settings say, and at least one. A session
/// counts exactly where it belongs to the upstream and is not switched off.
pub proof fn law_sessions_are_counted_by_upstream(
    entries: Seq<(String, CacheKeepaliveSession)>,
    entry: (String, CacheKeepaliveSession),
    upstream_id: Seq<char>,
    limit: i64,
)
    ensures
        limit >= 1 ==> session_limit(limit) == limit,
        limit < 1 ==> session_limit(limit) == 1,
        entry.1.upstream.id@ == upstream_id && entry.1.disabled_reason is None ==> active_count(
            entries.push(entry),
            upstream_id,
        ) == active_count(entries, upstream_id) + 1,
        entry.1.upstream.id@ != upstream_id || entry.1.disabled_reason is Some ==> active_count(
            entries.push(entry),
            upstream_id,
        ) == active_count(entries, upstream_id),
{
    assert(entries.push(entry).drop_last() =~= entries);
}

/// No two reasons have the same words.
pub proof fn law_reasons_are_told_apart(a: DisableReason, b: DisableReason)
    ensures
        a.words() == b.words() ==> a == b,
{
    reveal_strlit("settings disabled");
    reveal_strlit("max idle exceeded");
    reveal_strlit("not enough cached tokens");
    reveal_strlit("too many cached tokens");
    reveal_strlit("missing model price");
    reveal_strlit("smart cost rejected");
    reveal_strlit("cache miss");
    reveal_strlit("request failed");
    assert("settings disabled"@.len() == 17 && "settings disabled"@[0] == 's');
    assert("max idle exceeded"@.len() == 17 && "max idle exceeded"@[0] == 'm');
    assert("not enough cached tokens"@.len() == 24);
    assert("too many cached tokens"@.len() == 22);
    assert("missing model price"@.len() == 19 && "missing model price"@[0] == 'm');
    assert("smart cost rejected"@.len() == 19 && "smart cost rejected"@[0] == 's');
    assert("cache miss"@.len() == 10);
    assert("request failed"@.len() == 14);
}

/// Only an answer from 200 to 299 is read; one that is no JSON then says
/// nothing. Any other answer is an error that tells its status and its text.
pub proof fn law_answer_is_read_where_it_succeeded(
    status: u16,
    answer: Seq<u8>,
    document: Result<JsonView, Seq<char>>,
)
    ensures
        answer_of(status, answer, document) is Ok <==> 200 <= status <= 299,
        200 <= status <= 299 && document is Ok ==> answer_of(status, answer, document)
            == document,
        200 <= status <= 299 && document is Err ==> answer_of(status, answer, document) == Ok::<
            JsonView,
            Seq<char>,
        >(JsonView::Null),
        answer_of(status, answer, document) matches Err(message) ==> message
            == "cache keepalive upstream status "@ + http::status_text(status) + ": "@
            + text::lossy_text(answer),
{
}

} // verus!
