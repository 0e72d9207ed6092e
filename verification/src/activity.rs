//! Which upstreams are being called, or were called a moment ago.

use crate::table;
use crate::table::Table;
use vstd::prelude::*;

verus! {

/// The calls to an upstream that are under way, and when the last one ended.
/// Times are nanoseconds of the monotonic clock.
#[derive(Debug, Clone, Copy, PartialEq, Eq, Structural)]
pub struct UpstreamUsage {
    pub inflight: usize,
    pub last_active_at: Option<u128>,
}

/// The upstreams that have been called.
pub struct UpstreamActivity {
    pub usages: Table<UpstreamUsage>,
}

/// A call that is under way.
#[derive(Debug)]
pub struct ActivityGuard {
    pub upstream_id: String,
}

impl UpstreamUsage {
    /// No call yet.
    pub open spec fn idle() -> Self {
        UpstreamUsage { inflight: 0, last_active_at: None }
    }

    /// One more call under way.
    pub open spec fn began(self) -> Self {
        UpstreamUsage { inflight: (self.inflight + 1) as usize, ..self }
    }

    /// One call less under way, ended at some moment.
    pub open spec fn ended(self, now: u128) -> Self {
        UpstreamUsage {
            inflight: if self.inflight > 0 {
                (self.inflight - 1) as usize
            } else {
                0
            },
            last_active_at: Some(now),
        }
    }

    /// Whether a call is under way or ended no longer ago than the window.
    pub open spec fn active(self, window: u128, now: u128) -> bool {
        self.inflight > 0 || match self.last_active_at {
            Some(last) => now - last <= window,
            None => false,
        }
    }
}

/// The usage of an upstream; none where it was never called.
pub open spec fn usage_of(usages: Map<Seq<char>, UpstreamUsage>, id: Seq<char>) -> UpstreamUsage {
    if usages.contains_key(id) {
        usages[id]
    } else {
        UpstreamUsage::idle()
    }
}

impl UpstreamActivity {
    /// No upstream is recorded twice.
    pub open spec fn wf(&self) -> bool {
        self.usages.wf()
    }

    /// Nothing has been called.
    pub fn new() -> (r: Self)
        ensures
            r.wf(),
            r.usages@ == Map::<Seq<char>, UpstreamUsage>::empty(),
    {
        UpstreamActivity { usages: Table::new() }
    }

    /// A call to an upstream begins.
    pub fn begin(&mut self, upstream_id: &str) -> (r: ActivityGuard)
        requires
            old(self).wf(),
            usage_of(old(self).usages@, upstream_id@).inflight < usize::MAX,
        ensures
            final(self).wf(),
            final(self).usages@ == old(self).usages@.insert(
                upstream_id@,
                usage_of(old(self).usages@, upstream_id@).began(),
            ),
            r.upstream_id@ == upstream_id@,
    {
        let usage: UpstreamUsage = match self.usages.get(upstream_id) {
            Some(usage) => UpstreamUsage {
                inflight: usage.inflight + 1,
                last_active_at: usage.last_active_at,
            },
            None => UpstreamUsage { inflight: 1, last_active_at: None },
        };
        self.usages.insert(upstream_id.to_string(), usage);
        ActivityGuard { upstream_id: upstream_id.to_string() }
    }

    /// A call ends.
    pub fn finish(&mut self, call: ActivityGuard, now: u128)
        requires
            old(self).wf(),
        ensures
            final(self).wf(),
            final(self).usages@ == if old(self).usages@.contains_key(call.upstream_id@) {
                old(self).usages@.insert(
                    call.upstream_id@,
                    old(self).usages@[call.upstream_id@].ended(now),
                )
            } else {
                old(self).usages@
            },
    {
        if let Some(i) = self.usages.find(call.upstream_id.as_str()) {
            let usage: UpstreamUsage = self.usages.at(i).1;
            let inflight: usize = if usage.inflight > 0 {
                usage.inflight - 1
            } else {
                0
            };
            self.usages.set_at(i, UpstreamUsage { inflight, last_active_at: Some(now) });
        }
    }

    /// Whether an upstream is being called, or a call ended no longer ago than
    /// the window.
    pub fn is_active(&self, upstream_id: &str, window: u128, now: u128) -> (r: bool)
        requires
            self.wf(),
        ensures
            r == usage_of(self.usages@, upstream_id@).active(window, now),
    {
        match self.usages.get(upstream_id) {
            Some(usage) => {
                usage.inflight > 0 || match usage.last_active_at {
                    Some(last) => now <= last || now - last <= window,
                    None => false,
                }
            },
            None => false,
        }
    }
}

/// A call that begins keeps its upstream active, whatever the window.
pub proof fn law_call_is_active(usage: UpstreamUsage, window: u128, now: u128)
    requires
        usage.inflight < usize::MAX,
    ensures
        usage.began().active(window, now),
{
}

/// Of several calls, an upstream stays active until the last has ended: a call
/// that begins and ends leaves the number of the others as it was.
pub proof fn law_calls_balance(usage: UpstreamUsage, end: u128)
    requires
        usage.inflight < usize::MAX,
    ensures
        usage.began().ended(end).inflight == usage.inflight,
        usage.inflight > 0 ==> forall|window: u128, now: u128|
            usage.began().ended(end).active(window, now),
{
}

/// After its last call has ended, an upstream is active for exactly the window.
pub proof fn law_active_for_window(usage: UpstreamUsage, end: u128, window: u128, now: u128)
    requires
        usage.inflight <= 1,
        end <= now,
    ensures
        usage.ended(end).active(window, now) <==> now - end <= window,
{
}

/// Of each upstream the number of calls under way is its own: a call to one
/// leaves the others as they were, and an upstream that was never called is not
/// active.
pub proof fn law_upstreams_are_called_apart(
    usages: Map<Seq<char>, UpstreamUsage>,
    id: Seq<char>,
    other: Seq<char>,
    usage: UpstreamUsage,
    window: u128,
    now: u128,
)
    requires
        id != other,
    ensures
        usage_of(usages.insert(id, usage), other) == usage_of(usages, other),
        usage_of(usages.insert(id, usage), id) == usage,
        !usages.contains_key(other) ==> !usage_of(usages, other).active(window, now),
{
}

} // verus!
