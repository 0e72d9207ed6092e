//! The quota of Codex accounts.

use crate::double;
use crate::float64::Double;
use crate::models::{QuotaSnapshot, Upstream, UpstreamKind};
use crate::text;
use vstd::prelude::*;

verus! {

/// A percentage with one decimal, where it is known.
pub open spec fn percent(value: Option<Double>) -> Seq<char> {
    match value {
        Some(v) => double::fixed(v, 1),
        None => "未知"@,
    }
}

/// A percentage with one decimal, where it is known.
pub fn fmt_percent(value: Option<Double>) -> (r: String)
    requires
        value matches Some(v) ==> v.wf(),
    ensures
        r@ == percent(value),
{
    match value {
        Some(v) => v.to_fixed(1),
        None => "未知".to_string(),
    }
}

/// What is shown of an account's quota.
pub fn quota_line(snapshot: &QuotaSnapshot) -> (r: String)
    requires
        snapshot.used_5h_percent matches Some(v) ==> v.wf(),
        snapshot.used_7d_percent matches Some(v) ==> v.wf(),
    ensures
        r@ == "5h: "@ + percent(snapshot.used_5h_percent) + "%, 7d: "@ + percent(
            snapshot.used_7d_percent,
        ) + "%"@,
{
    let head: String = text::concat3(
        "5h: ",
        fmt_percent(snapshot.used_5h_percent).as_str(),
        "%, 7d: ",
    );
    text::concat3(head.as_str(), fmt_percent(snapshot.used_7d_percent).as_str(), "%")
}

/// The heading of an account.
pub fn account_line(upstream: &Upstream) -> (r: String)
    ensures
        r@ == upstream.name@ + " ["@ + upstream.kind.name() + "]"@,
{
    text::concat4(upstream.name.as_str(), " [", upstream.kind.as_str(), "]")
}

/// The places of the accounts among some upstreams.
pub open spec fn account_places(upstreams: Seq<Upstream>) -> Seq<usize>
    decreases upstreams.len(),
{
    if upstreams.len() == 0 {
        Seq::empty()
    } else {
        let earlier = account_places(upstreams.drop_last());
        if upstreams.last().kind == UpstreamKind::CodexOauth {
            earlier.push((upstreams.len() - 1) as usize)
        } else {
            earlier
        }
    }
}

/// The places of the accounts among some upstreams.
pub fn accounts(upstreams: &Vec<Upstream>) -> (r: Vec<usize>)
    ensures
        r@ == account_places(upstreams@),
{
    let mut out: Vec<usize> = Vec::new();
    let mut i: usize = 0;
    while i < upstreams.len()
        invariant
            i <= upstreams@.len(),
            out@ == account_places(upstreams@.take(i as int)),
        decreases upstreams@.len() - i,
    {
        proof {
            assert(upstreams@.take(i as int + 1).drop_last() =~= upstreams@.take(i as int));
        }
        if upstreams[i].kind == UpstreamKind::CodexOauth {
            out.push(i);
        }
        i = i + 1;
    }
    proof {
        assert(upstreams@.take(i as int) =~= upstreams@);
    }
    out
}

/// The places of the accounts are exactly those of the upstreams that are
/// accounts, in their order.
pub proof fn law_accounts_are_listed_in_order(upstreams: Seq<Upstream>)
    requires
        upstreams.len() <= usize::MAX,
    ensures
        forall|k: int|
            0 <= k < account_places(upstreams).len() ==> (#[trigger] account_places(upstreams)[k])
                < upstreams.len() && upstreams[account_places(upstreams)[k] as int].kind
                == UpstreamKind::CodexOauth,
        forall|i: int|
            0 <= i < upstreams.len() && (#[trigger] upstreams[i]).kind == UpstreamKind::CodexOauth
                ==> account_places(upstreams).contains(i as usize),
        forall|j: int, k: int|
            0 <= j < k < account_places(upstreams).len() ==> (#[trigger] account_places(
                upstreams,
            )[j]) < (#[trigger] account_places(upstreams)[k]),
    decreases upstreams.len(),
{
    if upstreams.len() > 0 {
        let front = upstreams.drop_last();
        law_accounts_are_listed_in_order(front);
        let earlier = account_places(front);
        let all = account_places(upstreams);
        let n = upstreams.len() - 1;
        assert forall|k: int| 0 <= k < all.len() implies (#[trigger] all[k]) < upstreams.len()
            && upstreams[all[k] as int].kind == UpstreamKind::CodexOauth by {
            if k < earlier.len() {
                assert(all[k] == earlier[k]);
                assert(front[earlier[k] as int] == upstreams[earlier[k] as int]);
            }
        }
        assert forall|i: int|
            0 <= i < upstreams.len() && (#[trigger] upstreams[i]).kind
                == UpstreamKind::CodexOauth implies all.contains(i as usize) by {
            if i < n {
                assert(front[i] == upstreams[i]);
                let k = choose|k: int| 0 <= k < earlier.len() && earlier[k] == i as usize;
                assert(all[k] == i as usize);
            } else {
                assert(all.last() == n as usize);
                assert(all[all.len() - 1] == i as usize);
            }
        }
        assert forall|j: int, k: int| 0 <= j < k < all.len() implies (#[trigger] all[j]) < (
        #[trigger] all[k]) by {
            assert(all[j] == earlier[j]);
            if k < earlier.len() {
                assert(all[k] == earlier[k]);
            }
        }
    }
}

} // verus!
