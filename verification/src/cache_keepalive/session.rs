//! Sessions whose caches are kept alive, and what is shown of them.

use crate::clock;
use crate::models;
use crate::models::{TokenUsage, Upstream, WireApi};
use crate::text;
use vstd::prelude::*;

verus! {

/// A conversation whose cache is kept alive. Times are nanoseconds of the
/// monotonic clock.
#[derive(Debug)]
pub struct CacheKeepaliveSession {
    pub key: String,
    pub upstream: Upstream,
    pub endpoint: String,
    pub model: String,
    pub body: Vec<u8>,
    pub wire_api: WireApi,
    pub cached_tokens: i64,
    pub keepalive_count: i64,
    pub last_user_request_at: u128,
    pub last_activity_at: u128,
    pub next_keepalive_at: u128,
    pub disabled_reason: Option<String>,
    pub disabled_at: Option<u128>,
}

/// A request that came through, with the usage that the upstream reported.
#[derive(Debug)]
pub struct CacheKeepaliveRegistration {
    pub upstream: Upstream,
    pub endpoint: String,
    pub model: Option<String>,
    pub body: Vec<u8>,
    pub usage: TokenUsage,
}

/// What is shown of a session at some moment.
#[derive(Debug)]
pub struct CacheKeepaliveSessionSnapshot {
    pub key: String,
    pub upstream_id: String,
    pub upstream_name: String,
    pub endpoint: String,
    pub model: String,
    pub wire_api: WireApi,
    pub cached_tokens: i64,
    pub keepalive_count: i64,
    pub last_user_request_elapsed_seconds: i64,
    pub last_activity_elapsed_seconds: i64,
    pub next_keepalive_seconds: i64,
    pub disabled_reason: Option<String>,
    pub body_bytes: usize,
}

/// A copy of some bytes.
fn copy_bytes(bytes: &Vec<u8>) -> (r: Vec<u8>)
    ensures
        r@ == bytes@,
{
    let mut out: Vec<u8> = Vec::new();
    let mut i: usize = 0;
    while i < bytes.len()
        invariant
            i <= bytes@.len(),
            out@ == bytes@.take(i as int),
        decreases bytes@.len() - i,
    {
        out.push(bytes[i]);
        i = i + 1;
        assert(out@ =~= bytes@.take(i as int));
    }
    assert(out@ =~= bytes@);
    out
}

impl CacheKeepaliveSession {
    /// The session's times are readings of the clock.
    pub open spec fn wf(&self) -> bool {
        &&& clock::is_instant(self.last_user_request_at)
        &&& clock::is_instant(self.last_activity_at)
        &&& clock::is_instant(self.next_keepalive_at)
        &&& (self.disabled_at matches Some(t) ==> clock::is_instant(t))
        &&& self.disabled_reason is Some <==> self.disabled_at is Some
    }

    /// Whether the session belongs to an upstream and is not switched off.
    pub open spec fn active_for(&self, upstream_id: Seq<char>) -> bool {
        self.upstream.id@ == upstream_id && self.disabled_reason is None
    }

    /// Whether the session belongs to an upstream and is not switched off.
    pub fn is_active_for(&self, upstream_id: &str) -> (r: bool)
        ensures
            r == self.active_for(upstream_id@),
    {
        text::same(self.upstream.id.as_str(), upstream_id) && self.disabled_reason.is_none()
    }

    /// Whether a keepalive is due.
    pub open spec fn due(&self, now: u128) -> bool {
        self.disabled_reason is None && self.next_keepalive_at <= now
    }

    /// Whether two sessions are the same, the body by its bytes.
    pub open spec fn same_as(&self, other: &Self) -> bool {
        &&& self.key@ == other.key@
        &&& self.upstream == other.upstream
        &&& self.endpoint@ == other.endpoint@
        &&& self.model@ == other.model@
        &&& self.body@ == other.body@
        &&& self.wire_api == other.wire_api
        &&& self.cached_tokens == other.cached_tokens
        &&& self.keepalive_count == other.keepalive_count
        &&& self.last_user_request_at == other.last_user_request_at
        &&& self.last_activity_at == other.last_activity_at
        &&& self.next_keepalive_at == other.next_keepalive_at
        &&& text::opt_view(self.disabled_reason) == text::opt_view(other.disabled_reason)
        &&& self.disabled_at == other.disabled_at
    }

    /// A session of its own with the same contents.
    pub fn copy(&self) -> (r: Self)
        ensures
            r.same_as(self),
    {
        CacheKeepaliveSession {
            key: self.key.clone(),
            upstream: self.upstream.clone(),
            endpoint: self.endpoint.clone(),
            model: self.model.clone(),
            body: copy_bytes(&self.body),
            wire_api: self.wire_api,
            cached_tokens: self.cached_tokens,
            keepalive_count: self.keepalive_count,
            last_user_request_at: self.last_user_request_at,
            last_activity_at: self.last_activity_at,
            next_keepalive_at: self.next_keepalive_at,
            disabled_reason: models::clone_opt(&self.disabled_reason),
            disabled_at: self.disabled_at,
        }
    }

    /// Whether a snapshot shows this session at some moment.
    pub open spec fn shown_by(&self, s: &CacheKeepaliveSessionSnapshot, now: u128) -> bool {
        &&& s.key@ == self.key@
        &&& s.upstream_id@ == self.upstream.id@
        &&& s.upstream_name@ == self.upstream.name@
        &&& s.endpoint@ == self.endpoint@
        &&& s.model@ == self.model@
        &&& s.wire_api == self.wire_api
        &&& s.cached_tokens == self.cached_tokens
        &&& s.keepalive_count == self.keepalive_count
        &&& s.last_user_request_elapsed_seconds == clock::seconds_between(
            self.last_user_request_at,
            now,
        )
        &&& s.last_activity_elapsed_seconds == clock::seconds_between(self.last_activity_at, now)
        &&& s.next_keepalive_seconds == clock::seconds_between(now, self.next_keepalive_at)
        &&& text::opt_view(s.disabled_reason) == text::opt_view(self.disabled_reason)
        &&& s.body_bytes == self.body@.len()
    }

    /// What is shown of the session.
    pub fn snapshot(&self, now: u128) -> (r: CacheKeepaliveSessionSnapshot)
        requires
            self.wf(),
            clock::is_instant(now),
        ensures
            self.shown_by(&r, now),
    {
        CacheKeepaliveSessionSnapshot {
            key: self.key.clone(),
            upstream_id: self.upstream.id.clone(),
            upstream_name: self.upstream.name.clone(),
            endpoint: self.endpoint.clone(),
            model: self.model.clone(),
            wire_api: self.wire_api,
            cached_tokens: self.cached_tokens,
            keepalive_count: self.keepalive_count,
            last_user_request_elapsed_seconds: elapsed_seconds(now, self.last_user_request_at),
            last_activity_elapsed_seconds: elapsed_seconds(now, self.last_activity_at),
            next_keepalive_seconds: clock::whole_seconds(now, self.next_keepalive_at),
            disabled_reason: models::clone_opt(&self.disabled_reason),
            body_bytes: self.body.len(),
        }
    }
}

/// The whole seconds since some moment.
pub fn elapsed_seconds(now: u128, earlier: u128) -> (r: i64)
    requires
        clock::is_instant(now),
        clock::is_instant(earlier),
    ensures
        r == clock::seconds_between(earlier, now),
{
    clock::whole_seconds(earlier, now)
}

/// The order in which sessions are listed: by the upstream's name, then the
/// model, then the key.
pub open spec fn listed_before(
    a: &CacheKeepaliveSessionSnapshot,
    b: &CacheKeepaliveSessionSnapshot,
) -> bool {
    if a.upstream_name@ != b.upstream_name@ {
        text::is_before(a.upstream_name@, b.upstream_name@)
    } else if a.model@ != b.model@ {
        text::is_before(a.model@, b.model@)
    } else {
        text::is_before(a.key@, b.key@)
    }
}

/// Whether one snapshot is listed before another.
pub fn is_listed_before(
    a: &CacheKeepaliveSessionSnapshot,
    b: &CacheKeepaliveSessionSnapshot,
) -> (r: bool)
    ensures
        r == listed_before(a, b),
{
    if !text::same(a.upstream_name.as_str(), b.upstream_name.as_str()) {
        text::before(a.upstream_name.as_str(), b.upstream_name.as_str())
    } else if !text::same(a.model.as_str(), b.model.as_str()) {
        text::before(a.model.as_str(), b.model.as_str())
    } else {
        text::before(a.key.as_str(), b.key.as_str())
    }
}

/// Of two snapshots of different sessions, one is listed before the other.
pub proof fn lemma_listing_total(
    a: &CacheKeepaliveSessionSnapshot,
    b: &CacheKeepaliveSessionSnapshot,
)
    requires
        a.key@ != b.key@,
    ensures
        listed_before(a, b) || listed_before(b, a),
{
    text::lemma_before_order(a.upstream_name@, b.upstream_name@, b.upstream_name@);
    text::lemma_before_order(a.model@, b.model@, b.model@);
    text::lemma_before_order(a.key@, b.key@, b.key@);
}

/// The listing order is transitive.
pub proof fn lemma_listing_transitive(
    a: &CacheKeepaliveSessionSnapshot,
    b: &CacheKeepaliveSessionSnapshot,
    c: &CacheKeepaliveSessionSnapshot,
)
    requires
        listed_before(a, b),
        listed_before(b, c),
    ensures
        listed_before(a, c),
{
    text::lemma_before_order(a.upstream_name@, b.upstream_name@, c.upstream_name@);
    text::lemma_before_order(a.model@, b.model@, c.model@);
    text::lemma_before_order(a.key@, b.key@, c.key@);
}

/// Sessions are listed by the name of their upstream, those of one upstream by
/// their model, and those of one model by their key. Of two with different keys
/// one comes first.
pub proof fn law_sessions_are_listed_by_upstream_and_model(
    a: &CacheKeepaliveSessionSnapshot,
    b: &CacheKeepaliveSessionSnapshot,
)
    ensures
        text::is_before(a.upstream_name@, b.upstream_name@) ==> listed_before(a, b)
            && !listed_before(b, a),
        a.upstream_name@ == b.upstream_name@ && text::is_before(a.model@, b.model@)
            ==> listed_before(a, b) && !listed_before(b, a),
        a.upstream_name@ == b.upstream_name@ && a.model@ == b.model@ ==> (listed_before(a, b)
            <==> text::is_before(a.key@, b.key@)),
        !listed_before(a, a),
{
    text::lemma_before_order(a.upstream_name@, b.upstream_name@, a.upstream_name@);
    text::lemma_before_order(a.model@, b.model@, a.model@);
    text::lemma_before_order(a.key@, b.key@, a.key@);
}

/// What is shown of a session is its own: the seconds since the user asked and
/// since anything happened are those that have passed, and those to the next
/// keepalive are those that are left, none once it is due.
pub proof fn law_session_is_shown_as_it_is(
    session: &CacheKeepaliveSession,
    s: &CacheKeepaliveSessionSnapshot,
    now: u128,
)
    requires
        session.shown_by(s, now),
    ensures
        s.key@ == session.key@,
        s.upstream_id@ == session.upstream.id@,
        s.upstream_name@ == session.upstream.name@,
        s.model@ == session.model@,
        s.cached_tokens == session.cached_tokens,
        s.keepalive_count == session.keepalive_count,
        s.disabled_reason is Some <==> session.disabled_reason is Some,
        session.last_user_request_at <= now ==> s.last_user_request_elapsed_seconds * 1_000_000_000
            <= now - session.last_user_request_at < (s.last_user_request_elapsed_seconds + 1)
            * 1_000_000_000,
        session.last_activity_at <= now ==> s.last_activity_elapsed_seconds * 1_000_000_000 <= now
            - session.last_activity_at < (s.last_activity_elapsed_seconds + 1) * 1_000_000_000,
        session.next_keepalive_at >= now ==> s.next_keepalive_seconds * 1_000_000_000
            <= session.next_keepalive_at - now < (s.next_keepalive_seconds + 1) * 1_000_000_000,
        session.disabled_reason is None && session.due(now) ==> s.next_keepalive_seconds == 0,
{
}

} // verus!
