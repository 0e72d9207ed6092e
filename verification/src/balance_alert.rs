//! When balances are refreshed, and when a low one raises an alert.

use crate::double;
use crate::float64::Double;
use crate::models;
use crate::models::{BalanceSnapshot, UpstreamBalanceAlertSettings, UpstreamKind};
use crate::number;
use crate::text;
use vstd::prelude::*;

verus! {

/// The seconds between two scans for due refreshes.
pub const SCAN_INTERVAL_SECONDS: u64 = 5;

/// The seconds between two refreshes of an upstream's balance: at least one.
pub open spec fn interval_of(settings: &UpstreamBalanceAlertSettings, active: bool) -> i64 {
    models::larger(
        if active {
            settings.active_interval_seconds
        } else {
            settings.interval_seconds
        },
        1,
    )
}

/// The seconds between two refreshes of an upstream's balance.
pub fn refresh_interval_seconds(settings: &UpstreamBalanceAlertSettings, active: bool) -> (r: i64)
    ensures
        r == interval_of(settings, active),
        r >= 1,
{
    if active {
        models::max_of(settings.active_interval_seconds, 1)
    } else {
        models::max_of(settings.interval_seconds, 1)
    }
}

/// The difference of two times, no further apart than the numbers go.
pub open spec fn saturating_difference(a: i64, b: i64) -> int {
    if a - b > i64::MAX {
        i64::MAX as int
    } else if a - b < i64::MIN {
        i64::MIN as int
    } else {
        a - b
    }
}

/// Whether an upstream's balance is to be refreshed.
pub open spec fn due(settings: &UpstreamBalanceAlertSettings, now: i64, active: bool) -> bool {
    match settings.last_checked_at {
        Some(last) => saturating_difference(now, last) >= interval_of(settings, active),
        None => true,
    }
}

/// Whether an upstream's balance is to be refreshed.
pub fn is_due(settings: &UpstreamBalanceAlertSettings, now: i64, active: bool) -> (r: bool)
    ensures
        r == due(settings, now, active),
{
    let interval: i64 = refresh_interval_seconds(settings, active);
    match settings.last_checked_at {
        Some(last) => now as i128 - last as i128 >= interval as i128,
        None => true,
    }
}

/// The seconds for which an upstream counts as active after a call: at least
/// one.
pub fn active_window_seconds(settings: &UpstreamBalanceAlertSettings) -> (r: u64)
    ensures
        r == models::larger(settings.active_window_seconds, 1),
{
    models::max_of(settings.active_window_seconds, 1) as u64
}

/// A balance that has just been refreshed is not due again before its interval
/// is over, and is due from then on.
pub proof fn law_due_after_interval(
    settings: &UpstreamBalanceAlertSettings,
    checked: i64,
    now: i64,
    active: bool,
)
    requires
        settings.last_checked_at == Some(checked),
    ensures
        due(settings, now, active) <==> now - checked >= interval_of(settings, active),
{
}

/// Whether a refresh of a due upstream goes ahead.
pub fn refreshes(enabled: bool, kind: UpstreamKind) -> (r: bool)
    ensures
        r == (enabled && kind == UpstreamKind::RelayApiKey),
{
    enabled && kind == UpstreamKind::RelayApiKey
}

/// Whether a balance is no more than the threshold, and that no less than
/// zero; an unknown balance is not low.
pub open spec fn low(snapshot: &BalanceSnapshot, threshold: Double) -> bool {
    match snapshot.remaining {
        Some(remaining) => double::at_most(remaining, double::at_least_zero(threshold)),
        None => false,
    }
}

/// Whether a balance is low.
pub fn is_balance_low(snapshot: &BalanceSnapshot, threshold: Double) -> (r: bool)
    requires
        threshold.wf(),
        snapshot.remaining matches Some(x) ==> x.wf(),
    ensures
        r == low(snapshot, threshold),
{
    match snapshot.remaining {
        Some(remaining) => remaining.is_at_most(threshold.or_zero()),
        None => false,
    }
}

/// A balance with its unit.
pub open spec fn balance_text(snapshot: &BalanceSnapshot) -> Seq<char> {
    let amount = match snapshot.remaining {
        Some(remaining) => double::fixed(remaining, 4),
        None => "未知"@,
    };
    match snapshot.unit {
        Some(unit) => if unit@.len() > 0 {
            amount + " "@ + unit@
        } else {
            amount
        },
        None => amount,
    }
}

/// A balance with its unit.
pub fn format_balance(snapshot: &BalanceSnapshot) -> (r: String)
    requires
        snapshot.remaining matches Some(x) ==> x.wf(),
    ensures
        r@ == balance_text(snapshot),
{
    let amount: String = match snapshot.remaining {
        Some(remaining) => remaining.to_fixed(4),
        None => "未知".to_string(),
    };
    match &snapshot.unit {
        Some(unit) => {
            if !text::is_empty(unit.as_str()) {
                text::concat3(amount.as_str(), " ", unit.as_str())
            } else {
                amount
            }
        },
        None => amount,
    }
}

/// What a refreshed balance leads to.
#[derive(Debug)]
pub enum AlertStep {
    /// Send a notification with this text; the alert is on where it went out.
    Notify { body: String },
    /// No notification; whether the alert is on.
    Settled(bool),
}

/// The text of the notification of a low balance.
pub open spec fn alert_body(
    upstream_name: Seq<char>,
    settings: &UpstreamBalanceAlertSettings,
    snapshot: &BalanceSnapshot,
) -> Seq<char> {
    "上游 "@ + upstream_name + " 当前余额为 "@ + balance_text(snapshot) + ", 已低于提醒阈值 "@
        + double::fixed(settings.threshold, 4)
}

/// What a refreshed balance leads to: a notification only where alerts are
/// asked for, the balance has become low and none was sent before.
pub fn evaluate_alert(
    upstream_name: &str,
    settings: &UpstreamBalanceAlertSettings,
    snapshot: &BalanceSnapshot,
) -> (r: AlertStep)
    requires
        settings.threshold.wf(),
        snapshot.remaining matches Some(x) ==> x.wf(),
    ensures
        match r {
            AlertStep::Notify { body } => {
                &&& settings.alert_enabled
                &&& low(snapshot, settings.threshold)
                &&& !settings.alert_active
                &&& body@ == alert_body(upstream_name@, settings, snapshot)
            },
            AlertStep::Settled(on) => {
                &&& on == (settings.alert_enabled && low(snapshot, settings.threshold))
                &&& on ==> settings.alert_active
            },
        },
        r is Notify <==> settings.alert_enabled && !settings.alert_active && low(
            snapshot,
            settings.threshold,
        ),
        !settings.alert_enabled ==> r == AlertStep::Settled(false),
        snapshot.remaining is None ==> r == AlertStep::Settled(false),
{
    if !settings.alert_enabled {
        return AlertStep::Settled(false);
    }
    let is_low: bool = is_balance_low(snapshot, settings.threshold);
    if is_low && !settings.alert_active {
        let amount: String = format_balance(snapshot);
        let front: String = text::concat4("上游 ", upstream_name, " 当前余额为 ", amount.as_str());
        let body: String = text::concat3(
            front.as_str(),
            ", 已低于提醒阈值 ",
            settings.threshold.to_fixed(4).as_str(),
        );
        AlertStep::Notify { body }
    } else {
        AlertStep::Settled(is_low)
    }
}

/// Whether the alert is on after a refresh that failed.
pub fn alert_after_failure(settings: &UpstreamBalanceAlertSettings) -> (r: bool)
    ensures
        r == (settings.alert_enabled && settings.alert_active),
{
    settings.alert_enabled && settings.alert_active
}

/// What is shown of an upstream's refresh settings, with a hint where there is
/// one.
pub open spec fn alert_label_of(settings: Option<&UpstreamBalanceAlertSettings>) -> (
    Seq<char>,
    Option<Seq<char>>,
) {
    match settings {
        Some(settings) => if !settings.enabled {
            ("关闭"@, None)
        } else if !settings.alert_enabled {
            (
                "刷新 / "@ + number::int_text(settings.interval_seconds as int) + " 秒"@,
                Some("仅自动刷新余额, 不发送系统提醒"@),
            )
        } else {
            (
                if settings.alert_active {
                    "不足 <= "@ + double::fixed(settings.threshold, 4)
                } else {
                    "<= "@ + double::fixed(settings.threshold, 4)
                },
                Some(
                    "每 "@ + number::int_text(settings.interval_seconds as int) + " 秒检查一次"@,
                ),
            )
        },
        None => ("关闭"@, None),
    }
}

/// What is shown of an upstream's refresh settings, with a hint where there is
/// one.
pub fn balance_alert_label(settings: Option<&UpstreamBalanceAlertSettings>) -> (r: (
    String,
    Option<String>,
))
    requires
        settings matches Some(s) ==> s.threshold.wf(),
    ensures
        (r.0@, text::opt_view(r.1)) == alert_label_of(settings),
{
    let settings: &UpstreamBalanceAlertSettings = match settings {
        Some(settings) => settings,
        None => {
            return ("关闭".to_string(), None);
        },
    };
    if !settings.enabled {
        return ("关闭".to_string(), None);
    }
    let seconds: String = number::i64_text(settings.interval_seconds);
    if !settings.alert_enabled {
        return (
            text::concat3("刷新 / ", seconds.as_str(), " 秒"),
            Some("仅自动刷新余额, 不发送系统提醒".to_string()),
        );
    }
    let threshold: String = settings.threshold.to_fixed(4);
    let label: String = if settings.alert_active {
        text::concat("不足 <= ", threshold.as_str())
    } else {
        text::concat("<= ", threshold.as_str())
    };
    (label, Some(text::concat3("每 ", seconds.as_str(), " 秒检查一次")))
}

/// A balance that was never checked is due. One that was is due once as many
/// seconds have passed as its settings say: those of an active upstream where
/// it is one, and at least one in any case.
pub proof fn law_due_by_its_own_interval(
    settings: &UpstreamBalanceAlertSettings,
    now: i64,
    active: bool,
)
    ensures
        settings.last_checked_at is None ==> due(settings, now, active),
        settings.last_checked_at matches Some(last) ==> {
            &&& due(settings, now, active) ==> now > last
            &&& active && settings.active_interval_seconds >= 1 ==> (due(settings, now, active)
                <==> now - last >= settings.active_interval_seconds)
            &&& !active && settings.interval_seconds >= 1 ==> (due(settings, now, active) <==> now
                - last >= settings.interval_seconds)
            &&& now - last >= 1 && (if active {
                settings.active_interval_seconds
            } else {
                settings.interval_seconds
            }) < 1 ==> due(settings, now, active)
        },
{
}

/// Under a threshold that is not negative a balance is low exactly where it is
/// not above the threshold: the threshold itself is low. Under a negative one
/// it is low where it is not above zero. A balance that is not known is not
/// low.
pub proof fn law_low_is_not_above_the_threshold(snapshot: &BalanceSnapshot, threshold: Double)
    ensures
        snapshot.remaining is None ==> !low(snapshot, threshold),
        snapshot.remaining matches Some(remaining) ==> {
            &&& remaining is Nan ==> !low(snapshot, threshold)
            &&& !(remaining is Nan) && !(threshold is Nan) && !double::below(
                threshold,
                double::zero(false),
            ) ==> (low(snapshot, threshold) <==> !double::below(threshold, remaining))
            &&& !(remaining is Nan) && double::below(threshold, double::zero(false)) ==> (low(
                snapshot,
                threshold,
            ) <==> !double::below(double::zero(false), remaining))
        },
{
}

/// What is left stands in front of its unit, with four decimals; an unknown
/// amount is called that.
pub proof fn law_balance_names_amount_and_unit(snapshot: &BalanceSnapshot)
    ensures
        snapshot.remaining matches Some(remaining) ==> double::fixed(
            remaining,
            4,
        ).is_prefix_of(balance_text(snapshot)),
        snapshot.remaining is None ==> "未知"@.is_prefix_of(balance_text(snapshot)),
        snapshot.unit matches Some(unit) ==> (unit@.len() > 0 ==> text::occurs_in(
            balance_text(snapshot),
            unit@,
        )),
{
    let amount = match snapshot.remaining {
        Some(remaining) => double::fixed(remaining, 4),
        None => "未知"@,
    };
    assert(amount.is_prefix_of(balance_text(snapshot)));
    if snapshot.unit is Some && snapshot.unit->0@.len() > 0 {
        let unit = snapshot.unit->0@;
        let t = balance_text(snapshot);
        let at: int = t.len() - unit.len();
        assert(t.subrange(at, at + unit.len()) =~= unit);
        assert(text::occurs_at(t, unit, at));
    }
}

/// The list says that refreshes are off exactly where they are, and marks a
/// balance as short only while its alert is on.
pub proof fn law_alert_is_shown_while_it_is_on(settings: &UpstreamBalanceAlertSettings)
    ensures
        alert_label_of(Some(settings)).1 is None <==> !settings.enabled,
        settings.enabled && settings.alert_enabled && settings.alert_active ==> alert_label_of(
            Some(settings),
        ).0 == "不足 <= "@ + double::fixed(settings.threshold, 4),
        settings.enabled && settings.alert_enabled && !settings.alert_active ==> alert_label_of(
            Some(settings),
        ).0 == "<= "@ + double::fixed(settings.threshold, 4),
        settings.enabled && !settings.alert_enabled ==> alert_label_of(Some(settings)).0
            == "刷新 / "@ + number::int_text(settings.interval_seconds as int) + " 秒"@,
        !settings.enabled ==> alert_label_of(Some(settings)) == alert_label_of(None),
{
}

} // verus!
