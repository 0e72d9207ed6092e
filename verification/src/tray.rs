//! The system tray: its menu, and the window that is hidden behind it.

use crate::active::LiveRequestSnapshot;
use crate::float64::Double;
use crate::models::{BalanceSnapshot, RequestLog, Upstream};
use crate::text;
use crate::upstreams;
use vstd::prelude::*;

verus! {

/// The identifier of the menu's first entry.
pub const OPEN_MENU_ID: &'static str = "codex-switch-open-window";

/// The identifier of the entry that starts and stops the service.
pub const TOGGLE_SERVICE_MENU_ID: &'static str = "codex-switch-toggle-service";

/// The identifier of the menu's last entry.
pub const QUIT_MENU_ID: &'static str = "codex-switch-quit";

/// What the tray asks for.
#[derive(Debug, Clone, Copy, PartialEq, Eq, Structural)]
pub enum TrayCommand {
    ShowWindow,
    ToggleService,
    Quit,
    CheckUpdates,
    ToggleAutoCheck,
    /// The theme of the system is dark, or not.
    ThemeChanged(bool),
}

/// What an entry of the menu asks for.
pub open spec fn command_of(id: Seq<char>) -> Option<TrayCommand> {
    if id == OPEN_MENU_ID@ {
        Some(TrayCommand::ShowWindow)
    } else if id == TOGGLE_SERVICE_MENU_ID@ {
        Some(TrayCommand::ToggleService)
    } else if id == QUIT_MENU_ID@ {
        Some(TrayCommand::Quit)
    } else {
        None
    }
}

/// What an entry of the menu asks for.
pub fn menu_command(id: &str) -> (r: Option<TrayCommand>)
    ensures
        r == command_of(id@),
{
    if text::same(id, OPEN_MENU_ID) {
        Some(TrayCommand::ShowWindow)
    } else if text::same(id, TOGGLE_SERVICE_MENU_ID) {
        Some(TrayCommand::ToggleService)
    } else if text::same(id, QUIT_MENU_ID) {
        Some(TrayCommand::Quit)
    } else {
        None
    }
}

/// What a click on the tray's icon asks for: only one of the left button, once
/// it is let go.
pub fn click_command(left: bool, released: bool) -> (r: Option<TrayCommand>)
    ensures
        r == if left && released {
            Some(TrayCommand::ShowWindow)
        } else {
            None
        },
{
    if left && released {
        Some(TrayCommand::ShowWindow)
    } else {
        None
    }
}

/// The label of the entry that starts and stops the service.
pub fn service_menu_text(running: bool) -> (r: &'static str)
    ensures
        r@ == if running {
            "关闭服务"@
        } else {
            "启动服务"@
        },
{
    if running {
        "关闭服务"
    } else {
        "启动服务"
    }
}

/// Whether the theme is dark, by the setting that tells whether it is light;
/// without the setting it is not.
pub fn theme_is_dark(uses_light_theme: Option<u32>) -> (r: bool)
    ensures
        r == (uses_light_theme == Some(0u32)),
{
    match uses_light_theme {
        Some(n) => n == 0,
        None => false,
    }
}

/// What the tray is told of a theme, where it is another one.
pub fn theme_change(current: bool, next: bool) -> (r: Option<TrayCommand>)
    ensures
        r == if current != next {
            Some(TrayCommand::ThemeChanged(next))
        } else {
            None
        },
{
    if current != next {
        Some(TrayCommand::ThemeChanged(next))
    } else {
        None
    }
}

/// What is waited for before a hidden window is shown again.
#[derive(Debug, Clone, Copy, PartialEq, Eq, Structural)]
pub enum ReopenState {
    Idle,
    WaitingForInactive,
    WaitingForActive,
}

/// Watches for the user to come back to the application while its window is
/// hidden: it must have lost the focus before.
#[derive(Debug, Clone, Copy, PartialEq, Eq, Structural)]
pub struct BackgroundReopenMonitor {
    pub state: ReopenState,
}

impl Default for BackgroundReopenMonitor {
    fn default() -> (r: Self)
        ensures
            r.state == ReopenState::Idle,
    {
        BackgroundReopenMonitor { state: ReopenState::Idle }
    }
}

impl BackgroundReopenMonitor {
    /// The window was hidden.
    pub fn mark_hidden(&mut self)
        ensures
            final(self).state == ReopenState::WaitingForInactive,
    {
        self.state = ReopenState::WaitingForInactive;
    }

    /// The window was shown.
    pub fn mark_shown(&mut self)
        ensures
            final(self).state == ReopenState::Idle,
    {
        self.state = ReopenState::Idle;
    }

    /// The state once it is known whether the application has the focus, and
    /// whether the window is shown.
    pub open spec fn observed(self, active: bool) -> (Self, bool) {
        match self.state {
            ReopenState::Idle => (self, false),
            ReopenState::WaitingForInactive => if active {
                (self, false)
            } else {
                (BackgroundReopenMonitor { state: ReopenState::WaitingForActive }, false)
            },
            ReopenState::WaitingForActive => if active {
                (BackgroundReopenMonitor { state: ReopenState::Idle }, true)
            } else {
                (self, false)
            },
        }
    }

    /// Whether a hidden window is shown, it being known whether the application
    /// has the focus.
    pub fn should_show_hidden_window(&mut self, active: bool) -> (r: bool)
        ensures
            (*final(self), r) == old(self).observed(active),
    {
        match self.state {
            ReopenState::Idle => false,
            ReopenState::WaitingForInactive => {
                if !active {
                    self.state = ReopenState::WaitingForActive;
                }
                false
            },
            ReopenState::WaitingForActive => {
                if active {
                    self.state = ReopenState::Idle;
                    true
                } else {
                    false
                }
            },
        }
    }
}

/// A window that was just hidden is shown at the first moment at which the
/// application has the focus after it had lost it, and not before.
pub proof fn law_reopens_after_losing_the_focus(m: BackgroundReopenMonitor)
    requires
        m.state == ReopenState::WaitingForInactive,
    ensures
        m.observed(true) == (m, false),
        !m.observed(false).1,
        !m.observed(false).0.observed(false).1,
        m.observed(false).0.observed(true).1,
        m.observed(false).0.observed(true).0.state == ReopenState::Idle,
{
}

/// The last of the first `end` requests that has not ended.
pub open spec fn last_running(live: Seq<LiveRequestSnapshot>, end: int) -> Option<int>
    decreases end,
{
    if end <= 0 || end > live.len() {
        None
    } else if live[end - 1].finished_at is None {
        Some(end - 1)
    } else {
        last_running(live, end - 1)
    }
}

/// The first upstream of a name, from some place on.
pub open spec fn place_of_name(
    upstreams: Seq<Upstream>,
    name: Option<Seq<char>>,
    from: int,
) -> Option<int>
    decreases upstreams.len() - from,
{
    if from < 0 || from >= upstreams.len() {
        None
    } else if name == Some(upstreams[from].name@) {
        Some(from)
    } else {
        place_of_name(upstreams, name, from + 1)
    }
}

/// The upstream that the last running request goes to.
pub open spec fn running_upstream(
    live: Seq<LiveRequestSnapshot>,
    upstreams: Seq<Upstream>,
) -> Option<Seq<char>> {
    match last_running(live, live.len() as int) {
        Some(i) => match place_of_name(upstreams, text::opt_view(live[i].upstream_name), 0) {
            Some(k) => Some(upstreams[k].id@),
            None => None,
        },
        None => None,
    }
}

/// The upstream that the tray tells of: the one that the last running request
/// goes to, or else that of the first log.
pub open spec fn told_upstream(
    live: Seq<LiveRequestSnapshot>,
    upstreams: Seq<Upstream>,
    logs: Seq<RequestLog>,
) -> Option<Seq<char>> {
    match running_upstream(live, upstreams) {
        Some(id) => Some(id),
        None => if logs.len() > 0 {
            text::opt_view(logs[0].upstream_id)
        } else {
            None
        },
    }
}

/// What a valid snapshot says is left, with its unit or an empty one.
pub open spec fn told_balance(snapshot: Option<BalanceSnapshot>) -> Option<(Double, Seq<char>)> {
    match snapshot {
        Some(s) => match s.remaining {
            Some(remaining) => if s.is_valid {
                Some(
                    (
                        remaining,
                        match s.unit {
                            Some(unit) => unit@,
                            None => Seq::empty(),
                        },
                    ),
                )
            } else {
                None
            },
            None => None,
        },
        None => None,
    }
}

fn find_running(live: &Vec<LiveRequestSnapshot>, upstreams: &Vec<Upstream>) -> (r: Option<String>)
    ensures
        text::opt_view(r) == running_upstream(live@, upstreams@),
{
    let mut end: usize = live.len();
    while end > 0 && live[end - 1].finished_at.is_some()
        invariant
            end <= live@.len(),
            last_running(live@, live@.len() as int) == last_running(live@, end as int),
        decreases end,
    {
        end = end - 1;
    }
    if end == 0 {
        return None;
    }
    let name: &str = match &live[end - 1].upstream_name {
        Some(name) => name.as_str(),
        None => {
            proof {
                lemma_no_name(upstreams@, 0);
            }
            return None;
        },
    };
    let mut i: usize = 0;
    while i < upstreams.len()
        invariant
            i <= upstreams@.len(),
            last_running(live@, live@.len() as int) == Some(end - 1),
            text::opt_view(live@[end - 1].upstream_name) == Some(name@),
            place_of_name(upstreams@, Some(name@), 0) == place_of_name(
                upstreams@,
                Some(name@),
                i as int,
            ),
        decreases upstreams@.len() - i,
    {
        if text::same(upstreams[i].name.as_str(), name) {
            return Some(upstreams[i].id.clone());
        }
        i = i + 1;
    }
    None
}

proof fn lemma_no_name(upstreams: Seq<Upstream>, from: int)
    ensures
        place_of_name(upstreams, None, from) is None,
    decreases upstreams.len() - from,
{
    if 0 <= from < upstreams.len() {
        lemma_no_name(upstreams, from + 1);
    }
}

/// The balance that the tray shows: what is left at the upstream that it tells
/// of, where a valid snapshot of it says so.
pub fn tray_balance(
    live: &Vec<LiveRequestSnapshot>,
    upstreams: &Vec<Upstream>,
    logs: &Vec<RequestLog>,
    snapshots: &Vec<(String, Option<BalanceSnapshot>)>,
) -> (r: Option<(Double, String)>)
    ensures
        match r {
            Some((remaining, unit)) => Some((remaining, unit@)),
            None => None,
        } == match told_upstream(live@, upstreams@, logs@) {
            Some(id) => told_balance(upstreams::snapshot_of(snapshots@, id)),
            None => None,
        },
{
    let id: String = match find_running(live, upstreams) {
        Some(id) => id,
        None => {
            if logs.len() == 0 {
                return None;
            }
            match &logs[0].upstream_id {
                Some(id) => id.clone(),
                None => {
                    return None;
                },
            }
        },
    };
    let snapshot: &BalanceSnapshot = match upstreams::balance_snapshot_for(snapshots, id.as_str()) {
        Some(snapshot) => snapshot,
        None => {
            return None;
        },
    };
    if !snapshot.is_valid {
        return None;
    }
    match snapshot.remaining {
        Some(remaining) => {
            let unit: String = match &snapshot.unit {
                Some(unit) => unit.clone(),
                None => String::new(),
            };
            Some((remaining, unit))
        },
        None => None,
    }
}

/// The last request that is running is one that has not ended, and all after
/// it have.
pub proof fn law_last_running_has_not_ended(live: Seq<LiveRequestSnapshot>, end: int)
    requires
        0 <= end <= live.len(),
    ensures
        match last_running(live, end) {
            Some(i) => 0 <= i < end && live[i].finished_at is None && forall|j: int|
                i < j < end ==> (#[trigger] live[j]).finished_at is Some,
            None => forall|j: int| 0 <= j < end ==> (#[trigger] live[j]).finished_at is Some,
        },
    decreases end,
{
    if end > 0 && live[end - 1].finished_at is Some {
        law_last_running_has_not_ended(live, end - 1);
    }
}

/// Where a request is running whose upstream is listed, the tray tells of that
/// upstream, whatever the log says; where none is running it tells of the
/// upstream of the first log.
pub proof fn law_tray_tells_of_the_running_request(
    live: Seq<LiveRequestSnapshot>,
    upstreams: Seq<Upstream>,
    logs: Seq<RequestLog>,
)
    ensures
        (forall|j: int| 0 <= j < live.len() ==> (#[trigger] live[j]).finished_at is Some) ==> {
            &&& logs.len() == 0 ==> told_upstream(live, upstreams, logs) is None
            &&& logs.len() > 0 ==> told_upstream(live, upstreams, logs) == text::opt_view(
                logs[0].upstream_id,
            )
        },
        live.len() > 0 && live.last().finished_at is None ==> (live.last().upstream_name matches
            Some(name) ==> forall|k: int|
                #![trigger upstreams[k]]
                0 <= k < upstreams.len() && upstreams[k].name@ == name@ && (forall|j: int|
                    0 <= j < k ==> (#[trigger] upstreams[j]).name@ != name@) ==> told_upstream(
                    live,
                    upstreams,
                    logs,
                ) == Some(upstreams[k].id@)),
{
    law_last_running_has_not_ended(live, live.len() as int);
    if live.len() > 0 && live.last().finished_at is None && live.last().upstream_name is Some {
        let name = live.last().upstream_name->0@;
        assert forall|k: int|
            #![trigger upstreams[k]]
            0 <= k < upstreams.len() && upstreams[k].name@ == name && (forall|j: int|
                0 <= j < k ==> (#[trigger] upstreams[j]).name@ != name) implies told_upstream(
            live,
            upstreams,
            logs,
        ) == Some(upstreams[k].id@) by {
            lemma_place_of_name(upstreams, name, 0, k);
        }
    }
}

/// The first upstream of a name is found.
proof fn lemma_place_of_name(upstreams: Seq<Upstream>, name: Seq<char>, from: int, k: int)
    requires
        0 <= from <= k < upstreams.len(),
        upstreams[k].name@ == name,
        forall|j: int| from <= j < k ==> (#[trigger] upstreams[j]).name@ != name,
    ensures
        place_of_name(upstreams, Some(name), from) == Some(k),
    decreases k - from,
{
    if from < k {
        assert(upstreams[from].name@ != name);
        lemma_place_of_name(upstreams, name, from + 1, k);
    }
}

/// The tray shows what a snapshot says is left, as it is, and nothing of one
/// that is not valid.
pub proof fn law_tray_shows_valid_balances(snapshot: BalanceSnapshot)
    ensures
        told_balance(Some(snapshot)) is Some <==> snapshot.is_valid && snapshot.remaining is Some,
        told_balance(Some(snapshot)) matches Some((left, unit)) ==> snapshot.remaining == Some(left)
            && (match snapshot.unit {
            Some(name) => unit == name@,
            None => unit.len() == 0,
        }),
        told_balance(None) is None,
{
}

/// The entries of the menu ask for what they are called after, and for nothing
/// else.
pub proof fn law_menu_entries_ask_for_their_own()
    ensures
        command_of("codex-switch-open-window"@) == Some(TrayCommand::ShowWindow),
        command_of("codex-switch-toggle-service"@) == Some(TrayCommand::ToggleService),
        command_of("codex-switch-quit"@) == Some(TrayCommand::Quit),
        forall|id: Seq<char>|
            #![trigger command_of(id)]
            command_of(id) is Some ==> id == "codex-switch-open-window"@ || id
                == "codex-switch-toggle-service"@ || id == "codex-switch-quit"@,
{
    reveal_strlit("codex-switch-open-window");
    reveal_strlit("codex-switch-toggle-service");
    reveal_strlit("codex-switch-quit");
    assert("codex-switch-open-window"@.len() == 24);
    assert("codex-switch-toggle-service"@.len() == 27);
    assert("codex-switch-quit"@.len() == 17);
}

} // verus!
