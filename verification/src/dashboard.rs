//! The dashboard: the local key, the totals and the database.

use crate::clock;
use crate::double;
use crate::float64::Double;
use crate::models::{DatabaseInfo, Upstream, UpstreamKind};
use crate::number;
use crate::temp_keys;
use crate::text;
use crate::tokens;
use crate::upstreams;
use vstd::prelude::*;

verus! {

/// The local key, and the window in which another one is chosen. Times are
/// readings of the monotonic clock.
#[derive(Debug)]
pub struct LocalKey {
    pub key: String,
    pub copied_at: Option<u128>,
    pub refresh_open: bool,
    pub refresh_value: String,
}

/// What the user did in the window.
#[derive(Debug, Clone, Copy, PartialEq, Eq, Structural)]
pub struct KeyActions {
    pub confirm: bool,
    pub cancel: bool,
    /// Whether the window's own button left it open.
    pub open: bool,
}

/// What comes of what the user did.
#[derive(Debug)]
pub enum KeyOutcome {
    Nothing,
    /// The new key is blank.
    Blank,
    /// A key is to be stored.
    Store(String),
}

/// A key made of a generated text.
pub fn local_key_with(generated: &str) -> (r: String)
    ensures
        r@ == "cs-"@ + generated@,
{
    text::concat("cs-", generated)
}

/// A fresh key.
pub fn generate_local_key() -> (r: String)
    ensures
        r@.len() == 39,
        "cs-"@.is_prefix_of(r@),
{
    let id: String = clock::new_uuid();
    let key: String = local_key_with(id.as_str());
    proof {
        reveal_strlit("cs-");
        assert(key@.subrange(0, 3) =~= "cs-"@);
    }
    key
}

/// The nanoseconds for which the key is still marked as copied.
pub open spec fn feedback_left(copied_at: u128, now: u128) -> int {
    temp_keys::COPY_FEEDBACK_NANOS - if now > copied_at {
        now - copied_at
    } else {
        0
    }
}

impl LocalKey {
    /// The nanoseconds for which the key is still marked as copied, where it is;
    /// the mark is taken away once they are over.
    pub fn copy_feedback(&mut self, now: u128) -> (r: Option<u128>)
        ensures
            match old(self).copied_at {
                Some(at) => if feedback_left(at, now) > 0 {
                    r == Some(feedback_left(at, now) as u128) && *final(self) == *old(self)
                } else {
                    r is None && *final(self) == (LocalKey { copied_at: None, ..*old(self) })
                },
                None => r is None && *final(self) == *old(self),
            },
    {
        match self.copied_at {
            Some(at) => {
                let elapsed: u128 = if now > at {
                    now - at
                } else {
                    0
                };
                if elapsed < temp_keys::COPY_FEEDBACK_NANOS {
                    Some(temp_keys::COPY_FEEDBACK_NANOS - elapsed)
                } else {
                    self.copied_at = None;
                    None
                }
            },
            None => None,
        }
    }

    /// Opens the window with a proposed key.
    pub fn open_refresh(&mut self, proposed: String)
        ensures
            *final(self) == (LocalKey {
                refresh_open: true,
                refresh_value: proposed,
                ..*old(self)
            }),
    {
        self.refresh_value = proposed;
        self.refresh_open = true;
    }

    /// Takes in what the user did in the window: a key that is not blank is to
    /// be stored, and a blank one leaves the window open.
    pub fn after_actions(&mut self, actions: KeyActions) -> (r: KeyOutcome)
        ensures
            ({
                let wanted = text::trimmed(old(self).refresh_value@);
                if actions.confirm {
                    if wanted.len() == 0 {
                        r is Blank && *final(self) == (LocalKey { refresh_open: true, ..*old(self) })
                    } else {
                        r matches KeyOutcome::Store(key) && key@ == wanted && *final(self) == (
                        LocalKey { refresh_open: false, ..*old(self) })
                    }
                } else {
                    r is Nothing && *final(self) == (LocalKey {
                        refresh_open: actions.open && !actions.cancel,
                        ..*old(self)
                    })
                }
            }),
    {
        if actions.confirm {
            let key: String = text::trim(self.refresh_value.as_str());
            if text::is_empty(key.as_str()) {
                self.refresh_open = true;
                KeyOutcome::Blank
            } else {
                self.refresh_open = false;
                KeyOutcome::Store(key)
            }
        } else {
            self.refresh_open = actions.open && !actions.cancel;
            KeyOutcome::Nothing
        }
    }

    /// Takes in that a key was stored.
    pub fn stored(&mut self, key: String)
        ensures
            *final(self) == (LocalKey { key, copied_at: None, ..*old(self) }),
    {
        self.key = key;
        self.copied_at = None;
    }
}

/// The bytes of the database's three files.
pub fn database_total_bytes(info: &DatabaseInfo) -> (r: u64)
    requires
        info.main_file_bytes + info.wal_file_bytes + info.shm_file_bytes <= u64::MAX,
    ensures
        r == info.main_file_bytes + info.wal_file_bytes + info.shm_file_bytes,
{
    info.main_file_bytes + info.wal_file_bytes + info.shm_file_bytes
}

/// A size in units of 1024: divided as long as it reaches another unit and
/// there is one.
pub open spec fn in_units(value: Double, unit: nat) -> (Double, nat)
    decreases 3 - unit,
{
    if unit >= 3 || double::below(value, double::of_int(1024)) {
        (value, unit)
    } else {
        in_units(double::divided_by(value, 1024), unit + 1)
    }
}

/// The name of a unit.
pub open spec fn unit_name(unit: nat) -> Seq<char> {
    if unit == 0 {
        "B"@
    } else if unit == 1 {
        "KB"@
    } else if unit == 2 {
        "MB"@
    } else {
        "GB"@
    }
}

/// A size: whole bytes, or one decimal of a larger unit.
pub open spec fn size_text(bytes: int) -> Seq<char> {
    let (value, unit) = in_units(double::of_int(bytes), 0);
    if unit == 0 {
        number::int_text(bytes) + " B"@
    } else {
        double::fixed(value, 1) + " "@ + unit_name(unit)
    }
}

/// A size: whole bytes, or one decimal of a larger unit.
pub fn format_bytes(bytes: u64) -> (r: String)
    ensures
        r@ == size_text(bytes as int),
{
    let limit: Double = Double::from_u64(1024);
    let mut value: Double = Double::from_u64(bytes);
    let mut unit: usize = 0;
    while unit < 3 && !value.is_below(limit)
        invariant
            unit <= 3,
            value.wf(),
            limit.wf(),
            limit == double::of_int(1024),
            in_units(double::of_int(bytes as int), 0) == in_units(value, unit as nat),
        decreases 3 - unit,
    {
        value = value.over(1024);
        unit = unit + 1;
    }
    if unit == 0 {
        return text::concat(number::u64_text(bytes).as_str(), " B");
    }
    let name: &str = if unit == 1 {
        "KB"
    } else if unit == 2 {
        "MB"
    } else {
        "GB"
    };
    text::concat3(value.to_fixed(1).as_str(), " ", name)
}

/// How old the prices are.
pub fn price_cache_age_text(age_seconds: Option<i64>) -> (r: String)
    ensures
        r@ == match age_seconds {
            Some(age) => if age < 60 {
                "刚刚更新"@
            } else if age < 3600 {
                number::int_text(age as int / 60) + " 分钟前更新"@
            } else if age < 86_400 {
                number::int_text(age as int / 3600) + " 小时前更新"@
            } else {
                number::int_text(age as int / 86_400) + " 天前更新"@
            },
            None => "尚未缓存价格"@,
        },
{
    match age_seconds {
        Some(age) => if age < 60 {
            "刚刚更新".to_string()
        } else if age < 3600 {
            text::concat(number::i64_text(age / 60).as_str(), " 分钟前更新")
        } else if age < 86_400 {
            text::concat(number::i64_text(age / 3600).as_str(), " 小时前更新")
        } else {
            text::concat(number::i64_text(age / 86_400).as_str(), " 天前更新")
        },
        None => "尚未缓存价格".to_string(),
    }
}

/// Whether prices can be fetched by hand, and how the button is labelled.
pub fn price_button(pending: bool, cached: i64) -> (r: (bool, &'static str))
    ensures
        r.0 == (!pending && cached == 0),
        r.1@ == if pending {
            "获取中"@
        } else {
            "获取模型价格"@
        },
{
    (
        !pending && cached == 0,
        if pending {
            "获取中"
        } else {
            "获取模型价格"
        },
    )
}

/// What is shown as the cost of an upstream.
pub fn provider_cost_text(cost: Option<Double>) -> (r: String)
    requires
        cost matches Some(value) ==> value.wf(),
    ensures
        r@ == match cost {
            Some(value) => tokens::amount_text(value, "$"@),
            None => "无价格缓存"@,
        },
{
    match cost {
        Some(value) => tokens::format_usd(value),
        None => "无价格缓存".to_string(),
    }
}

/// What can be done with the balance of an upstream.
#[derive(Debug, Clone, Copy, PartialEq, Eq, Structural)]
pub enum BalanceButton {
    /// There is none.
    Missing,
    /// It is being asked for.
    Pending,
    /// It can be asked for.
    Ready,
}

/// What can be done with the balance of an upstream: only that of a relay that
/// is still there can be asked for.
pub fn balance_button(upstreams: &Vec<Upstream>, id: &str, pending: bool) -> (r: BalanceButton)
    ensures
        r == match upstreams::upstream_place(upstreams@, id@, 0) {
            Some(i) => if upstreams@[i].kind != UpstreamKind::RelayApiKey {
                BalanceButton::Missing
            } else if pending {
                BalanceButton::Pending
            } else {
                BalanceButton::Ready
            },
            None => BalanceButton::Missing,
        },
{
    match upstreams::find_upstream(upstreams, id) {
        Some(upstream) => if upstream.kind != UpstreamKind::RelayApiKey {
            BalanceButton::Missing
        } else if pending {
            BalanceButton::Pending
        } else {
            BalanceButton::Ready
        },
        None => BalanceButton::Missing,
    }
}

/// The label of a balance's button.
pub fn balance_button_label(button: BalanceButton) -> (r: &'static str)
    ensures
        r@ == match button {
            BalanceButton::Missing => "-"@,
            BalanceButton::Pending => "查询中"@,
            BalanceButton::Ready => "刷新余额"@,
        },
{
    match button {
        BalanceButton::Missing => "-",
        BalanceButton::Pending => "查询中",
        BalanceButton::Ready => "刷新余额",
    }
}

/// The address at which clients reach the service.
pub fn base_url_line(bind_addr: &str) -> (r: String)
    ensures
        r@ == "Base URL: http://"@ + bind_addr@ + "/v1"@,
{
    text::concat3("Base URL: http://", bind_addr, "/v1")
}

/// A size keeps fewer than 1024 of its unit, unless the unit is the largest.
pub proof fn law_size_is_below_the_next_unit(bytes: int)
    ensures
        ({
            let (value, unit) = in_units(double::of_int(bytes), 0);
            unit <= 3 && (unit < 3 ==> double::below(value, double::of_int(1024)))
        }),
{
    lemma_units(double::of_int(bytes), 0);
}

proof fn lemma_units(value: Double, unit: nat)
    requires
        unit <= 3,
    ensures
        in_units(value, unit).1 <= 3,
        in_units(value, unit).1 < 3 ==> double::below(in_units(value, unit).0, double::of_int(1024)),
    decreases 3 - unit,
{
    if unit < 3 && !double::below(value, double::of_int(1024)) {
        lemma_units(double::divided_by(value, 1024), unit + 1);
    }
}

/// A size below a kilobyte is shown in whole bytes; whole kilobytes, megabytes
/// and gigabytes are shown as such, each 1024 of the one before.
pub proof fn law_whole_units_are_shown(n: int)
    requires
        0 < n < 1024,
    ensures
        size_text(n) == number::int_text(n) + " B"@,
        size_text(0) == number::int_text(0) + " B"@,
        size_text(n * 1024) == double::fixed(double::of_int(n), 1) + " "@ + "KB"@,
        size_text(n * 1_048_576) == double::fixed(double::of_int(n), 1) + " "@ + "MB"@,
        size_text(n * 1_073_741_824) == double::fixed(double::of_int(n), 1) + " "@ + "GB"@,
{
    let k: int = n * 1024;
    let m: int = n * 1_048_576;
    let g: int = n * 1_073_741_824;
    double::law_whole_numbers_are_exact(0, 1024);
    double::law_whole_numbers_are_exact(n, 1024);
    double::law_whole_numbers_are_exact(k, 1024);
    double::law_whole_numbers_are_exact(m, 1024);
    double::law_whole_numbers_are_exact(g, 1024);
    assert(m == k * 1024 && g == m * 1024);
    double::law_division_undoes_multiplication(n, 1024);
    double::law_division_undoes_multiplication(k, 1024);
    double::law_division_undoes_multiplication(m, 1024);
    reveal_with_fuel(in_units, 4);
}

/// The mark of a copied key goes two seconds after it was copied, and not
/// before.
pub proof fn law_copied_mark_lasts_two_seconds(copied_at: u128, now: u128)
    requires
        copied_at <= now,
    ensures
        feedback_left(copied_at, now) > 0 <==> now - copied_at < 2_000_000_000,
        feedback_left(copied_at, now) + (now - copied_at) == 2_000_000_000,
{
}

} // verus!
