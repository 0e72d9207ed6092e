//! The list of upstreams: what it shows of each, and what is said of an import
//! or an export.

use crate::balance_alert;
use crate::double;
use crate::models::{
    BalanceSnapshot, Upstream, UpstreamBalanceAlertSettings, UpstreamCacheKeepaliveSettings,
    UpstreamKind,
};
use crate::number;
use crate::text;
use vstd::prelude::*;

verus! {

/// The place of an upstream, from some place on.
pub open spec fn upstream_place(upstreams: Seq<Upstream>, id: Seq<char>, from: int) -> Option<int>
    decreases upstreams.len() - from,
{
    if from < 0 || from >= upstreams.len() {
        None
    } else if upstreams[from].id@ == id {
        Some(from)
    } else {
        upstream_place(upstreams, id, from + 1)
    }
}

/// The upstream of an identifier.
pub fn find_upstream<'a>(upstreams: &'a Vec<Upstream>, id: &str) -> (r: Option<&'a Upstream>)
    ensures
        match (r, upstream_place(upstreams@, id@, 0)) {
            (Some(found), Some(i)) => 0 <= i < upstreams@.len() && *found == upstreams@[i],
            (None, None) => true,
            _ => false,
        },
{
    let mut i: usize = 0;
    while i < upstreams.len()
        invariant
            i <= upstreams@.len(),
            upstream_place(upstreams@, id@, 0) == upstream_place(upstreams@, id@, i as int),
        decreases upstreams@.len() - i,
    {
        if text::same(upstreams[i].id.as_str(), id) {
            return Some(&upstreams[i]);
        }
        i = i + 1;
    }
    None
}

/// The place of an upstream's snapshot in a list, from some place on.
pub open spec fn snapshot_place(
    snapshots: Seq<(String, Option<BalanceSnapshot>)>,
    id: Seq<char>,
    from: int,
) -> Option<int>
    decreases snapshots.len() - from,
{
    if from < 0 || from >= snapshots.len() {
        None
    } else if snapshots[from].0@ == id {
        Some(from)
    } else {
        snapshot_place(snapshots, id, from + 1)
    }
}

/// The snapshot of an upstream's balance in a list.
pub open spec fn snapshot_of(
    snapshots: Seq<(String, Option<BalanceSnapshot>)>,
    id: Seq<char>,
) -> Option<BalanceSnapshot> {
    match snapshot_place(snapshots, id, 0) {
        Some(i) => snapshots[i].1,
        None => None,
    }
}

/// The snapshot of an upstream's balance in a list.
pub fn balance_snapshot_for<'a>(
    snapshots: &'a Vec<(String, Option<BalanceSnapshot>)>,
    upstream_id: &str,
) -> (r: Option<&'a BalanceSnapshot>)
    ensures
        match r {
            Some(snapshot) => snapshot_of(snapshots@, upstream_id@) == Some(*snapshot),
            None => snapshot_of(snapshots@, upstream_id@) is None,
        },
{
    let mut i: usize = 0;
    while i < snapshots.len()
        invariant
            i <= snapshots@.len(),
            snapshot_place(snapshots@, upstream_id@, 0) == snapshot_place(
                snapshots@,
                upstream_id@,
                i as int,
            ),
        decreases snapshots@.len() - i,
    {
        if text::same(snapshots[i].0.as_str(), upstream_id) {
            return match &snapshots[i].1 {
                Some(snapshot) => Some(snapshot),
                None => None,
            };
        }
        i = i + 1;
    }
    None
}

/// What is shown of a balance, with a hint where there is one.
pub open spec fn balance_text(snapshot: Option<BalanceSnapshot>) -> (Seq<char>, Option<Seq<char>>) {
    match snapshot {
        Some(s) => if !s.is_valid {
            (
                "失败"@,
                match s.message {
                    Some(message) => Some("失败: "@ + message@),
                    None => None,
                },
            )
        } else {
            let amount = match s.remaining {
                Some(value) => double::fixed(value, 4),
                None => "未知"@,
            };
            if s.unit is Some && s.unit->0@.len() > 0 {
                (amount + " "@ + s.unit->0@, None)
            } else {
                (amount, None)
            }
        },
        None => ("未查询"@, None),
    }
}

/// What is shown of a balance, with a hint where there is one.
pub fn format_balance_snapshot(snapshot: Option<&BalanceSnapshot>) -> (r: (String, Option<String>))
    requires
        snapshot matches Some(s) ==> (s.remaining matches Some(value) ==> value.wf()),
    ensures
        (r.0@, text::opt_view(r.1)) == balance_text(
            match snapshot {
                Some(s) => Some(*s),
                None => None,
            },
        ),
{
    let snapshot: &BalanceSnapshot = match snapshot {
        Some(snapshot) => snapshot,
        None => {
            return ("未查询".to_string(), None);
        },
    };
    if !snapshot.is_valid {
        let detail: Option<String> = match &snapshot.message {
            Some(message) => Some(text::concat("失败: ", message.as_str())),
            None => None,
        };
        return ("失败".to_string(), detail);
    }
    let amount: String = match snapshot.remaining {
        Some(value) => value.to_fixed(4),
        None => "未知".to_string(),
    };
    match &snapshot.unit {
        Some(unit) => {
            if text::is_empty(unit.as_str()) {
                (amount, None)
            } else {
                (text::concat3(amount.as_str(), " ", unit.as_str()), None)
            }
        },
        None => (amount, None),
    }
}

/// What the list shows of an upstream's balance: nothing but of a relay's.
pub fn balance_cell(
    upstream: &Upstream,
    snapshots: &Vec<(String, Option<BalanceSnapshot>)>,
) -> (r: (String, Option<String>))
    requires
        snapshot_of(snapshots@, upstream.id@) matches Some(s) ==> (s.remaining matches Some(value)
            ==> value.wf()),
    ensures
        (r.0@, text::opt_view(r.1)) == if upstream.kind == UpstreamKind::RelayApiKey {
            balance_text(snapshot_of(snapshots@, upstream.id@))
        } else {
            ("-"@, None)
        },
{
    if upstream.kind == UpstreamKind::RelayApiKey {
        format_balance_snapshot(balance_snapshot_for(snapshots, upstream.id.as_str()))
    } else {
        ("-".to_string(), None)
    }
}

/// What the list shows of an upstream's balance refreshes: nothing but of a
/// relay's.
pub fn balance_alert_cell(
    upstream: &Upstream,
    settings: Option<&UpstreamBalanceAlertSettings>,
) -> (r: (String, Option<String>))
    requires
        settings matches Some(s) ==> s.threshold.wf(),
    ensures
        (r.0@, text::opt_view(r.1)) == if upstream.kind == UpstreamKind::RelayApiKey {
            balance_alert::alert_label_of(settings)
        } else {
            ("-"@, None)
        },
{
    if upstream.kind == UpstreamKind::RelayApiKey {
        balance_alert::balance_alert_label(settings)
    } else {
        ("-".to_string(), None)
    }
}

/// What is shown of an upstream's cached sessions.
pub open spec fn keepalive_label_of(settings: Option<&UpstreamCacheKeepaliveSettings>) -> (
    Seq<char>,
    Option<Seq<char>>,
) {
    match settings {
        Some(s) => if !s.active() {
            ("关闭"@, None)
        } else {
            (
                s.mode.name() + " / "@ + number::int_text(s.interval_seconds as int) + " 秒"@,
                Some(
                    "最大空闲 "@ + number::int_text(s.max_idle_seconds as int) + " 秒, 最小缓存 "@
                        + number::int_text(s.min_cacheable_tokens as int)
                        + " tokens, 最大缓存 "@ + number::int_text(s.max_cacheable_tokens as int)
                        + " tokens, 最大会话 "@ + number::int_text(s.max_active_sessions as int),
                ),
            )
        },
        None => ("关闭"@, None),
    }
}

/// What is shown of an upstream's cached sessions, with a hint where there is
/// one.
pub fn cache_keepalive_label(settings: Option<&UpstreamCacheKeepaliveSettings>) -> (r: (
    String,
    Option<String>,
))
    ensures
        (r.0@, text::opt_view(r.1)) == keepalive_label_of(settings),
{
    let settings: &UpstreamCacheKeepaliveSettings = match settings {
        Some(settings) => settings,
        None => {
            return ("关闭".to_string(), None);
        },
    };
    if !settings.is_active() {
        return ("关闭".to_string(), None);
    }
    let interval: String = number::i64_text(settings.interval_seconds);
    let label: String = text::concat4(settings.mode.as_str(), " / ", interval.as_str(), " 秒");
    let idle: String = number::i64_text(settings.max_idle_seconds);
    let fewest: String = number::i64_text(settings.min_cacheable_tokens);
    let most: String = number::i64_text(settings.max_cacheable_tokens);
    let sessions: String = number::i64_text(settings.max_active_sessions);
    let first: String = text::concat4("最大空闲 ", idle.as_str(), " 秒, 最小缓存 ", fewest.as_str());
    let second: String = text::concat3(first.as_str(), " tokens, 最大缓存 ", most.as_str());
    (label, Some(text::concat3(second.as_str(), " tokens, 最大会话 ", sessions.as_str())))
}

/// What is added where peer nodes were left out.
pub open spec fn skipped_text(skipped: nat) -> Seq<char> {
    if skipped > 0 {
        ", 已跳过 "@ + number::nat_text(skipped) + " 个 peer 节点上游"@
    } else {
        Seq::empty()
    }
}

fn skipped_suffix(skipped: usize) -> (r: String)
    ensures
        r@ == skipped_text(skipped as nat),
{
    if skipped > 0 {
        text::concat3(", 已跳过 ", number::usize_text(skipped).as_str(), " 个 peer 节点上游")
    } else {
        String::new()
    }
}

/// What is said after an import.
pub fn import_status(imported: usize, skipped: usize) -> (r: String)
    ensures
        r@ == "已导入 "@ + number::nat_text(imported as nat) + " 个上游"@ + skipped_text(
            skipped as nat,
        ),
{
    text::concat4(
        "已导入 ",
        number::usize_text(imported).as_str(),
        " 个上游",
        skipped_suffix(skipped).as_str(),
    )
}

/// What is said after an export: nothing was copied where nothing was found.
pub fn export_status(exported: usize, skipped: usize, only_enabled: bool) -> (r: String)
    ensures
        r@ == if exported == 0 {
            if only_enabled {
                "没有已启用的上游可导出"@
            } else {
                "没有上游可导出"@
            }
        } else {
            "已导出 "@ + number::nat_text(exported as nat)
                + " 个上游到剪贴板, JSON 包含 API Key 等凭据, 请注意保管"@ + skipped_text(
                skipped as nat,
            )
        },
{
    if exported == 0 {
        if only_enabled {
            "没有已启用的上游可导出".to_string()
        } else {
            "没有上游可导出".to_string()
        }
    } else {
        text::concat4(
            "已导出 ",
            number::usize_text(exported).as_str(),
            " 个上游到剪贴板, JSON 包含 API Key 等凭据, 请注意保管",
            skipped_suffix(skipped).as_str(),
        )
    }
}

/// The question before an upstream is deleted.
pub fn delete_question(name: &str) -> (r: String)
    ensures
        r@ == "确认删除上游 \""@ + name@ + "\"? 此操作无法撤销."@,
{
    text::concat3("确认删除上游 \"", name, "\"? 此操作无法撤销.")
}

/// The upstream of an identifier is the first that has it.
pub proof fn law_first_of_an_identifier_is_found(
    upstreams: Seq<Upstream>,
    id: Seq<char>,
    from: int,
)
    requires
        0 <= from <= upstreams.len(),
    ensures
        match upstream_place(upstreams, id, from) {
            Some(i) => from <= i < upstreams.len() && upstreams[i].id@ == id && forall|j: int|
                from <= j < i ==> (#[trigger] upstreams[j]).id@ != id,
            None => forall|j: int|
                from <= j < upstreams.len() ==> (#[trigger] upstreams[j]).id@ != id,
        },
    decreases upstreams.len() - from,
{
    if from < upstreams.len() && upstreams[from].id@ != id {
        law_first_of_an_identifier_is_found(upstreams, id, from + 1);
    }
}

/// The snapshot of an upstream is the first that is kept under its identifier.
pub proof fn law_snapshot_is_kept_by_identifier(
    snapshots: Seq<(String, Option<BalanceSnapshot>)>,
    id: Seq<char>,
    from: int,
)
    requires
        0 <= from <= snapshots.len(),
    ensures
        match snapshot_place(snapshots, id, from) {
            Some(i) => from <= i < snapshots.len() && snapshots[i].0@ == id && forall|j: int|
                from <= j < i ==> (#[trigger] snapshots[j]).0@ != id,
            None => forall|j: int|
                from <= j < snapshots.len() ==> (#[trigger] snapshots[j]).0@ != id,
        },
    decreases snapshots.len() - from,
{
    if from < snapshots.len() && snapshots[from].0@ != id {
        law_snapshot_is_kept_by_identifier(snapshots, id, from + 1);
    }
}

/// A balance that could not be had is shown as failed, with its message as the
/// hint; one that was had is shown as its amount, with no hint.
pub proof fn law_failed_balance_is_shown_as_that(snapshot: BalanceSnapshot)
    ensures
        !snapshot.is_valid ==> balance_text(Some(snapshot)).0 == "失败"@ && match snapshot.message {
            Some(message) => balance_text(Some(snapshot)).1 == Some("失败: "@ + message@),
            None => balance_text(Some(snapshot)).1 is None,
        },
        snapshot.is_valid ==> balance_text(Some(snapshot)).1 is None,
        snapshot.is_valid ==> balance_text(Some(snapshot)).0 == balance_alert::balance_text(
            &snapshot,
        ),
        balance_text(None) == ("未查询"@, None::<Seq<char>>),
{
}

/// Kept sessions are shown with the numbers of their own settings, and as off
/// where they are.
pub proof fn law_keepalive_label_shows_the_settings(s: &UpstreamCacheKeepaliveSettings)
    ensures
        keepalive_label_of(None).1 is None,
        !s.enabled ==> keepalive_label_of(Some(s)) == keepalive_label_of(None),
        keepalive_label_of(Some(s)).1 matches Some(hint) ==> {
            &&& s.enabled
            &&& ("最大空闲 "@ + number::int_text(s.max_idle_seconds as int) + " 秒, 最小缓存 "@
                + number::int_text(s.min_cacheable_tokens as int) + " tokens, 最大缓存 "@).is_prefix_of(
                hint,
            )
            &&& text::occurs_in(
                keepalive_label_of(Some(s)).0,
                number::int_text(s.interval_seconds as int) + " 秒"@,
            )
        },
{
    if keepalive_label_of(Some(s)).1 is Some {
        let t = keepalive_label_of(Some(s)).0;
        let b = number::int_text(s.interval_seconds as int) + " 秒"@;
        let at: int = t.len() - b.len();
        assert(t.subrange(at, at + b.len()) =~= b);
        assert(text::occurs_at(t, b, at));
    }
}

/// What was left out is told exactly where anything was.
pub proof fn law_skipped_nodes_are_told(skipped: nat)
    ensures
        skipped == 0 ==> skipped_text(skipped).len() == 0,
        skipped > 0 ==> skipped_text(skipped) == ", 已跳过 "@ + number::nat_text(skipped)
            + " 个 peer 节点上游"@,
{
}

} // verus!
