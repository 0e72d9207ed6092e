//! Counters by which the views notice that something has changed.

use vstd::prelude::*;

verus! {

/// How often the request log, the live streams and the kept-alive sessions
/// have changed, and whether anyone wants to be told.
#[derive(Debug, Clone, Copy, PartialEq, Eq, Structural)]
pub struct AppEvents {
    pub request_logs: u64,
    pub live_streams: u64,
    pub cache_keepalives: u64,
    pub has_repaint_requester: bool,
}

/// The next version; after the last one comes zero.
pub open spec fn next_version(v: u64) -> u64 {
    if v == u64::MAX {
        0
    } else {
        (v + 1) as u64
    }
}

fn bumped(v: u64) -> (r: u64)
    ensures
        r == next_version(v),
{
    if v == u64::MAX {
        0
    } else {
        v + 1
    }
}

impl AppEvents {
    /// Nothing has changed yet.
    pub fn new() -> (r: Self)
        ensures
            r == (AppEvents {
                request_logs: 0,
                live_streams: 0,
                cache_keepalives: 0,
                has_repaint_requester: false,
            }),
    {
        AppEvents {
            request_logs: 0,
            live_streams: 0,
            cache_keepalives: 0,
            has_repaint_requester: false,
        }
    }

    /// The request log has changed; whether a repaint is to be requested.
    pub fn bump_request_logs(&mut self) -> (r: bool)
        ensures
            *final(self) == (AppEvents {
                request_logs: next_version(old(self).request_logs),
                ..*old(self)
            }),
            r == old(self).has_repaint_requester,
    {
        self.request_logs = bumped(self.request_logs);
        self.has_repaint_requester
    }

    /// The version of the request log.
    pub fn request_log_version(&self) -> (r: u64)
        ensures
            r == self.request_logs,
    {
        self.request_logs
    }

    /// The live streams have changed; whether a repaint is to be requested.
    pub fn bump_live_streams(&mut self) -> (r: bool)
        ensures
            *final(self) == (AppEvents {
                live_streams: next_version(old(self).live_streams),
                ..*old(self)
            }),
            r == old(self).has_repaint_requester,
    {
        self.live_streams = bumped(self.live_streams);
        self.has_repaint_requester
    }

    /// The version of the live streams.
    pub fn live_stream_version(&self) -> (r: u64)
        ensures
            r == self.live_streams,
    {
        self.live_streams
    }

    /// The kept-alive sessions have changed; whether a repaint is to be
    /// requested.
    pub fn bump_cache_keepalive(&mut self) -> (r: bool)
        ensures
            *final(self) == (AppEvents {
                cache_keepalives: next_version(old(self).cache_keepalives),
                ..*old(self)
            }),
            r == old(self).has_repaint_requester,
    {
        self.cache_keepalives = bumped(self.cache_keepalives);
        self.has_repaint_requester
    }

    /// The version of the kept-alive sessions.
    pub fn cache_keepalive_version(&self) -> (r: u64)
        ensures
            r == self.cache_keepalives,
    {
        self.cache_keepalives
    }

    /// From now on someone wants to be told of changes.
    pub fn set_repaint_requester(&mut self)
        ensures
            *final(self) == (AppEvents { has_repaint_requester: true, ..*old(self) }),
    {
        self.has_repaint_requester = true;
    }
}

/// A version that has changed is noticed: the next one is a different one.
pub proof fn law_change_is_noticed(v: u64)
    ensures
        next_version(v) != v,
{
}

} // verus!
