//! The application around its pages: what it starts with, when it looks again,
//! and what becomes of its window.

use crate::double;
use crate::models::{ScheduleGroup, ScheduleRouteRule};
use crate::name_list;
use crate::number;
use crate::text;
use crate::tokens::UsdCnyRate;
use crate::tray::{BackgroundReopenMonitor, ReopenState, TrayCommand};
use crate::update_view;
use vstd::prelude::*;

verus! {

/// The address that the service listens on where none was set.
pub const DEFAULT_BIND_ADDR: &'static str = "127.0.0.1:15721";

/// Milliseconds between two frames of a hidden window.
pub const HIDDEN_REPAINT_MILLIS: u64 = 5_000;

/// Milliseconds between two frames of a window in sight.
pub const VISIBLE_REPAINT_MILLIS: u64 = 500;

/// Nanoseconds between two looks at the log's length.
pub const LOG_POLL_NANOS: u128 = 10_000_000_000;

/// Nanoseconds between two looks at the sessions that are in sight.
pub const KEEPALIVE_REFRESH_NANOS: u128 = 1_000_000_000;

/// Nanoseconds between two updates of the tray.
pub const TRAY_REFRESH_NANOS: u128 = 1_000_000_000;

/// The number of requests on a page of the log.
pub const LOG_PAGE_SIZE: usize = 20;

/// A page of the application.
#[derive(Debug, Clone, Copy, PartialEq, Eq, Structural)]
pub enum Tab {
    Dashboard,
    Upstreams,
    Peers,
    Scheduler,
    CacheKeepalive,
    ActiveConnections,
    TempKeys,
    ModelTest,
    Logs,
}

/// The numbers by which changes are announced.
#[derive(Debug, Clone, Copy, PartialEq, Eq, Structural)]
pub struct Versions {
    pub request_log: u64,
    pub cache_keepalive: u64,
    pub balance_snapshot: u64,
    pub peer: u64,
    pub show_window: u64,
    pub exit_request: u64,
}

/// What was stored of the settings that a start goes by.
#[derive(Debug)]
pub struct StoredSettings {
    pub bind_addr: Option<String>,
    pub local_key: Option<String>,
    pub dock_icon_follows_window: Option<String>,
    pub start_server_on_launch: Option<String>,
    pub start_peer_on_launch: Option<String>,
}

/// The state of the application around its pages.
#[derive(Debug)]
pub struct Shell {
    pub tab: Tab,
    pub status: String,
    pub bind_addr: String,
    pub local_key: String,
    pub window_hidden: bool,
    pub exit_requested: bool,
    pub exit_confirm_open: bool,
    pub update_window_open: bool,
    pub has_tray: bool,
    pub tray_failed: bool,
    pub services: Services,
    pub dock_icon_follows_window: bool,
    pub reopen: BackgroundReopenMonitor,
    pub watch: Watch,
    pub log_page: usize,
    pub log_page_size: usize,
    pub fetches: Fetches,
}

/// What of the application listens.
#[derive(Debug, Clone, Copy, PartialEq, Eq, Structural)]
pub struct Services {
    pub server_running: bool,
    pub peer_running: bool,
}

/// What is being fetched, and what was.
#[derive(Debug)]
pub struct Fetches {
    pub price_fetch_started: bool,
    pub price_fetch_pending: bool,
    pub quota_query_pending: bool,
    pub balance_pending: Vec<String>,
    pub pairing_pending: bool,
    pub usd_cny_rate: Option<UsdCnyRate>,
}

/// What was seen last, and when. Times are readings of the monotonic clock, in
/// nanoseconds.
#[derive(Debug, Clone, Copy, PartialEq, Eq, Structural)]
pub struct Watch {
    pub seen: Versions,
    pub log_polled_at: u128,
    pub keepalive_refreshed_at: u128,
    pub tray_refreshed_at: u128,
    pub log_total_count: i64,
}

/// What is done at a start besides drawing.
#[derive(Debug, Clone, Copy, PartialEq, Eq, Structural)]
pub struct LaunchActions {
    pub hide_dock_icon: bool,
    pub start_server: bool,
    pub start_peer: bool,
}

/// Whether a stored switch is on.
pub open spec fn switched_on(value: Option<String>) -> bool {
    value matches Some(v) && v@ == "true"@
}

fn is_on(value: &Option<String>) -> (r: bool)
    ensures
        r == switched_on(*value),
{
    match value {
        Some(v) => text::same(v.as_str(), "true"),
        None => false,
    }
}

/// Whether a stored switch is not off: it is on where it was never set.
pub open spec fn not_off(value: Option<String>) -> bool {
    !(value matches Some(v) && v@ == "false"@)
}

fn is_not_off(value: &Option<String>) -> (r: bool)
    ensures
        r == not_off(*value),
{
    match value {
        Some(v) => !text::same(v.as_str(), "false"),
        None => true,
    }
}

/// A stored value, or another one where there is none.
pub open spec fn stored_or(value: Option<String>, other: Seq<char>) -> Seq<char> {
    match value {
        Some(v) => v@,
        None => other,
    }
}

/// What an automatic look at things comes to.
#[derive(Debug, Clone, Copy, PartialEq, Eq, Structural)]
pub struct AutoRefresh {
    pub repaint_millis: u64,
    pub sessions: bool,
    pub peers: bool,
    pub everything: bool,
    pub log_count: bool,
}

/// What becomes of the window when it is closed.
#[derive(Debug, Clone, Copy, PartialEq, Eq, Structural)]
pub enum CloseAction {
    /// It closes.
    Close,
    /// It hides behind the tray, with or without the icon of the application.
    Hide { hide_dock_icon: bool },
}

/// What was asked for from outside.
#[derive(Debug, Clone, Copy, PartialEq, Eq, Structural)]
pub enum OutsideRequest {
    Nothing,
    Exit,
    ShowWindow,
}

/// What the tray's command comes to.
#[derive(Debug, Clone, Copy, PartialEq, Eq, Structural)]
pub enum TrayAction {
    ShowWindow,
    StartServer,
    StopServer,
    Exit,
    CheckUpdates,
    SetAutoCheck(bool),
    SetTheme(bool),
}

impl Watch {
    /// What an automatic look comes to at some time, and what has been seen
    /// after it. A hidden window looks at nothing. Announced sessions, and nodes,
    /// are looked at; then everything is, where a balance or a request was
    /// announced. Sessions in sight are looked at every second, and the log's
    /// length now and then.
    pub open spec fn looked(&self, hidden: bool, tab: Tab, versions: Versions, now: u128) -> (Self, AutoRefresh) {
        let sessions = versions.cache_keepalive != self.seen.cache_keepalive;
        let peers = versions.peer != self.seen.peer;
        let balances = versions.balance_snapshot != self.seen.balance_snapshot;
        let noted = Versions {
            cache_keepalive: versions.cache_keepalive,
            peer: versions.peer,
            balance_snapshot: versions.balance_snapshot,
            ..self.seen
        };
        let in_sight = tab == Tab::CacheKeepalive && !sessions && now
            - self.keepalive_refreshed_at >= KEEPALIVE_REFRESH_NANOS;
        let requests = versions.request_log != self.seen.request_log;
        let poll = now - self.log_polled_at >= LOG_POLL_NANOS;
        let nothing = AutoRefresh {
            repaint_millis: VISIBLE_REPAINT_MILLIS,
            sessions,
            peers,
            everything: false,
            log_count: false,
        };
        if hidden {
            (
                *self,
                AutoRefresh {
                    repaint_millis: HIDDEN_REPAINT_MILLIS,
                    sessions: false,
                    peers: false,
                    everything: false,
                    log_count: false,
                },
            )
        } else if balances {
            (Watch { seen: noted, ..*self }, AutoRefresh { everything: true, ..nothing })
        } else if requests {
            (
                Watch { seen: Versions { request_log: versions.request_log, ..noted }, ..*self },
                AutoRefresh { sessions: sessions || in_sight, everything: true, ..nothing },
            )
        } else if !poll {
            (
                Watch { seen: noted, ..*self },
                AutoRefresh { sessions: sessions || in_sight, ..nothing },
            )
        } else {
            (
                Watch { seen: noted, log_polled_at: now, ..*self },
                AutoRefresh { sessions: sessions || in_sight, log_count: true, ..nothing },
            )
        }
    }

    /// What an automatic look comes to at some time.
    pub fn maybe_auto_refresh(
        &mut self,
        hidden: bool,
        tab: Tab,
        versions: Versions,
        now: u128,
    ) -> (r: AutoRefresh)
        ensures
            (*final(self), r) == old(self).looked(hidden, tab, versions, now),
    {
        let mut out: AutoRefresh = AutoRefresh {
            repaint_millis: HIDDEN_REPAINT_MILLIS,
            sessions: false,
            peers: false,
            everything: false,
            log_count: false,
        };
        if hidden {
            return out;
        }
        out.repaint_millis = VISIBLE_REPAINT_MILLIS;
        if versions.cache_keepalive != self.seen.cache_keepalive {
            self.seen.cache_keepalive = versions.cache_keepalive;
            out.sessions = true;
        }
        if versions.peer != self.seen.peer {
            self.seen.peer = versions.peer;
            out.peers = true;
        }
        if versions.balance_snapshot != self.seen.balance_snapshot {
            self.seen.balance_snapshot = versions.balance_snapshot;
            out.everything = true;
            return out;
        }
        if tab == Tab::CacheKeepalive && !out.sessions && now >= self.keepalive_refreshed_at
            && now - self.keepalive_refreshed_at >= KEEPALIVE_REFRESH_NANOS {
            out.sessions = true;
        }
        if versions.request_log != self.seen.request_log {
            self.seen.request_log = versions.request_log;
            out.everything = true;
            return out;
        }
        if now >= self.log_polled_at && now - self.log_polled_at >= LOG_POLL_NANOS {
            self.log_polled_at = now;
            out.log_count = true;
        }
        out
    }

    /// Takes in the log's length: everything is looked at where it is another
    /// one.
    pub fn log_count_differs(&self, count: i64) -> (r: bool)
        ensures
            r == (count != self.log_total_count),
    {
        count != self.log_total_count
    }

    /// Takes in that the sessions were looked at.
    pub fn sessions_refreshed(&mut self, version: u64, now: u128)
        ensures
            *final(self) == (Watch {
                keepalive_refreshed_at: now,
                seen: Versions { cache_keepalive: version, ..old(self).seen },
                ..*old(self)
            }),
    {
        self.keepalive_refreshed_at = now;
        self.seen.cache_keepalive = version;
    }

    /// Takes in that everything was looked at.
    pub fn everything_refreshed(&mut self, versions: Versions, log_total_count: i64)
        ensures
            *final(self) == (Watch {
                log_total_count,
                seen: Versions {
                    request_log: versions.request_log,
                    balance_snapshot: versions.balance_snapshot,
                    ..old(self).seen
                },
                ..*old(self)
            }),
    {
        self.log_total_count = log_total_count;
        self.seen.request_log = versions.request_log;
        self.seen.balance_snapshot = versions.balance_snapshot;
    }

    /// What was asked for from outside: an end goes before anything else, and
    /// nothing is asked of an application that ends.
    pub fn handle_app_events(&mut self, ending: bool, versions: Versions) -> (r: OutsideRequest)
        ensures
            if versions.exit_request != old(self).seen.exit_request {
                &&& r == if ending {
                    OutsideRequest::Nothing
                } else {
                    OutsideRequest::Exit
                }
                &&& *final(self) == (Watch {
                    seen: Versions {
                        exit_request: versions.exit_request,
                        ..old(self).seen
                    },
                    ..*old(self)
                })
            } else if versions.show_window != old(self).seen.show_window {
                &&& r == if ending {
                    OutsideRequest::Nothing
                } else {
                    OutsideRequest::ShowWindow
                }
                &&& *final(self) == (Watch {
                    seen: Versions { show_window: versions.show_window, ..old(self).seen },
                    ..*old(self)
                })
            } else {
                r == OutsideRequest::Nothing && *final(self) == *old(self)
            },
    {
        if versions.exit_request != self.seen.exit_request {
            self.seen.exit_request = versions.exit_request;
            return if ending {
                OutsideRequest::Nothing
            } else {
                OutsideRequest::Exit
            };
        }
        if versions.show_window != self.seen.show_window {
            self.seen.show_window = versions.show_window;
            return if ending {
                OutsideRequest::Nothing
            } else {
                OutsideRequest::ShowWindow
            };
        }
        OutsideRequest::Nothing
    }

    /// Whether the tray is told anew at some time how things stand.
    pub fn tray_refresh_due(&mut self, now: u128) -> (r: bool)
        ensures
            r == (now - old(self).tray_refreshed_at >= TRAY_REFRESH_NANOS),
            *final(self) == if r {
                Watch { tray_refreshed_at: now, ..*old(self) }
            } else {
                *old(self)
            },
    {
        if now >= self.tray_refreshed_at && now - self.tray_refreshed_at >= TRAY_REFRESH_NANOS {
            self.tray_refreshed_at = now;
            true
        } else {
            false
        }
    }

    /// Lets the tray be told anew at once.
    pub fn service_changed(&mut self, now: u128)
        requires
            now >= TRAY_REFRESH_NANOS,
        ensures
            *final(self) == (Watch {
                tray_refreshed_at: (now - TRAY_REFRESH_NANOS) as u128,
                ..*old(self)
            }),
    {
        self.tray_refreshed_at = now - TRAY_REFRESH_NANOS;
    }
}

impl Shell {
    /// The upstreams whose balances are asked for stand in order, none twice.
    pub open spec fn wf(&self) -> bool {
        name_list::in_order(self.fetches.balance_pending@)
    }

    /// The application at its start.
    pub fn launch(
        settings: StoredSettings,
        seen: Versions,
        usd_cny_rate: Option<UsdCnyRate>,
        hide_on_launch: bool,
        now: u128,
    ) -> (r: (Self, LaunchActions))
        ensures
            r.0.tab == Tab::Dashboard,
            r.0.status@ == if hide_on_launch {
                "已按设置在后台启动, 可从系统托盘打开主界面"@
            } else {
                "就绪"@
            },
            r.0.bind_addr@ == stored_or(settings.bind_addr, DEFAULT_BIND_ADDR@),
            r.0.local_key@ == stored_or(settings.local_key, Seq::empty()),
            r.0.window_hidden == hide_on_launch,
            !r.0.exit_requested,
            !r.0.exit_confirm_open,
            !r.0.update_window_open,
            !r.0.has_tray,
            !r.0.tray_failed,
            r.0.services == (Services { server_running: false, peer_running: false }),
            r.0.dock_icon_follows_window == not_off(settings.dock_icon_follows_window),
            r.0.reopen.state == if hide_on_launch {
                ReopenState::WaitingForInactive
            } else {
                ReopenState::Idle
            },
            r.0.watch == (Watch {
                seen,
                log_polled_at: now,
                keepalive_refreshed_at: now,
                tray_refreshed_at: now,
                log_total_count: 0,
            }),
            r.0.log_page == 0,
            r.0.log_page_size == LOG_PAGE_SIZE,
            !r.0.fetches.price_fetch_started,
            !r.0.fetches.price_fetch_pending,
            !r.0.fetches.quota_query_pending,
            r.0.fetches.balance_pending@.len() == 0,
            r.0.wf(),
            !r.0.fetches.pairing_pending,
            r.0.fetches.usd_cny_rate == usd_cny_rate,
            r.1 == (LaunchActions {
                hide_dock_icon: hide_on_launch && not_off(settings.dock_icon_follows_window),
                start_server: switched_on(settings.start_server_on_launch),
                start_peer: switched_on(settings.start_peer_on_launch),
            }),
    {
        let dock: bool = is_not_off(&settings.dock_icon_follows_window);
        let actions: LaunchActions = LaunchActions {
            hide_dock_icon: hide_on_launch && dock,
            start_server: is_on(&settings.start_server_on_launch),
            start_peer: is_on(&settings.start_peer_on_launch),
        };
        let bind_addr: String = match settings.bind_addr {
            Some(addr) => addr,
            None => DEFAULT_BIND_ADDR.to_string(),
        };
        let local_key: String = match settings.local_key {
            Some(key) => key,
            None => String::new(),
        };
        let mut reopen: BackgroundReopenMonitor = BackgroundReopenMonitor {
            state: ReopenState::Idle,
        };
        if hide_on_launch {
            reopen.mark_hidden();
        }
        let status: String = if hide_on_launch {
            "已按设置在后台启动, 可从系统托盘打开主界面".to_string()
        } else {
            "就绪".to_string()
        };
        let shell: Shell = Shell {
            tab: Tab::Dashboard,
            status,
            bind_addr,
            local_key,
            window_hidden: hide_on_launch,
            exit_requested: false,
            exit_confirm_open: false,
            update_window_open: false,
            has_tray: false,
            tray_failed: false,
            services: Services { server_running: false, peer_running: false },
            dock_icon_follows_window: dock,
            reopen,
            watch: Watch {
                seen,
                log_polled_at: now,
                keepalive_refreshed_at: now,
                tray_refreshed_at: now,
                log_total_count: 0,
            },
            log_page: 0,
            log_page_size: LOG_PAGE_SIZE,
            fetches: Fetches {
                price_fetch_started: false,
                price_fetch_pending: false,
                quota_query_pending: false,
                balance_pending: Vec::new(),
                pairing_pending: false,
                usd_cny_rate,
            },
        };
        (shell, actions)
    }

    /// The part of the log that the page shows: how many requests, and after how
    /// many.
    pub fn log_window(&self) -> (r: (i64, i64))
        requires
            self.log_page * self.log_page_size <= i64::MAX,
            self.log_page_size <= i64::MAX,
            self.log_page * self.log_page_size <= usize::MAX,
        ensures
            r.0 == self.log_page_size,
            r.1 == self.log_page * self.log_page_size,
    {
        (self.log_page_size as i64, (self.log_page * self.log_page_size) as i64)
    }

    /// What becomes of the window when it is closed: it hides where there is a
    /// tray and the application does not end.
    pub fn handle_close_request(&mut self) -> (r: CloseAction)
        ensures
            if old(self).exit_requested || !old(self).has_tray {
                r == CloseAction::Close && *final(self) == *old(self)
            } else {
                &&& r == (CloseAction::Hide { hide_dock_icon: old(self).dock_icon_follows_window })
                &&& final(self).status@ == "窗口已隐藏到系统托盘"@
                &&& final(self).reopen.state == ReopenState::WaitingForInactive
                &&& *final(self) == (Shell {
                    window_hidden: true,
                    status: final(self).status,
                    reopen: final(self).reopen,
                    ..*old(self)
                })
            },
    {
        if self.exit_requested || !self.has_tray {
            return CloseAction::Close;
        }
        self.window_hidden = true;
        self.reopen.mark_hidden();
        self.status = "窗口已隐藏到系统托盘".to_string();
        CloseAction::Hide { hide_dock_icon: self.dock_icon_follows_window }
    }

    /// Whether the hidden window is shown, it being known whether the
    /// application has the focus.
    pub fn handle_dock_reopen(&mut self, active: bool) -> (r: bool)
        ensures
            if old(self).window_hidden {
                &&& (final(self).reopen, r) == old(self).reopen.observed(active)
                &&& *final(self) == (Shell { reopen: final(self).reopen, ..*old(self) })
            } else {
                !r && *final(self) == *old(self)
            },
    {
        if !self.window_hidden {
            return false;
        }
        self.reopen.should_show_hidden_window(active)
    }

    /// Takes in that the window was shown.
    pub fn show_main_window(&mut self)
        ensures
            final(self).status@ == "主界面已打开"@,
            final(self).reopen.state == ReopenState::Idle,
            *final(self) == (Shell {
                window_hidden: false,
                status: final(self).status,
                reopen: final(self).reopen,
                ..*old(self)
            }),
    {
        self.window_hidden = false;
        self.reopen.mark_shown();
        self.status = "主界面已打开".to_string();
    }

    /// What a command of the tray comes to, it being known whether updates are
    /// looked for at every start.
    pub fn handle_tray_command(&mut self, command: TrayCommand, auto_check: bool) -> (r: TrayAction)
        ensures
            r == match command {
                TrayCommand::ShowWindow => TrayAction::ShowWindow,
                TrayCommand::ToggleService => if old(self).services.server_running {
                    TrayAction::StopServer
                } else {
                    TrayAction::StartServer
                },
                TrayCommand::Quit => TrayAction::Exit,
                TrayCommand::CheckUpdates => TrayAction::CheckUpdates,
                TrayCommand::ToggleAutoCheck => TrayAction::SetAutoCheck(!auto_check),
                TrayCommand::ThemeChanged(dark) => TrayAction::SetTheme(dark),
            },
            match command {
                TrayCommand::CheckUpdates => final(self).status@ == "正在检查更新..."@
                    && *final(self) == (Shell {
                    update_window_open: true,
                    status: final(self).status,
                    ..*old(self)
                }),
                TrayCommand::ToggleAutoCheck => final(self).status@ == update_view::auto_check_text(
                    !auto_check,
                ) && *final(self) == (Shell { status: final(self).status, ..*old(self) }),
                _ => *final(self) == *old(self),
            },
    {
        match command {
            TrayCommand::ShowWindow => TrayAction::ShowWindow,
            TrayCommand::ToggleService => if self.services.server_running {
                TrayAction::StopServer
            } else {
                TrayAction::StartServer
            },
            TrayCommand::Quit => TrayAction::Exit,
            TrayCommand::CheckUpdates => {
                self.update_window_open = true;
                self.status = "正在检查更新...".to_string();
                TrayAction::CheckUpdates
            },
            TrayCommand::ToggleAutoCheck => {
                self.status = update_view::auto_check_status(!auto_check).to_string();
                TrayAction::SetAutoCheck(!auto_check)
            },
            TrayCommand::ThemeChanged(dark) => TrayAction::SetTheme(dark),
        }
    }

    /// Whether prices are fetched at the start: once.
    pub fn begin_price_fetch_once(&mut self) -> (r: bool)
        ensures
            r == !old(self).fetches.price_fetch_started,
            if r {
                final(self).status@ == "正在检查模型信息缓存"@ && *final(self) == (Shell {
                    fetches: Fetches {
                        price_fetch_started: true,
                        price_fetch_pending: true,
                        ..old(self).fetches
                    },
                    status: final(self).status,
                    ..*old(self)
                })
            } else {
                *final(self) == *old(self)
            },
    {
        if self.fetches.price_fetch_started {
            return false;
        }
        self.fetches.price_fetch_started = true;
        self.fetches.price_fetch_pending = true;
        self.status = "正在检查模型信息缓存".to_string();
        true
    }

    /// Whether prices are fetched by hand: not while they are.
    pub fn begin_price_fetch(&mut self) -> (r: bool)
        ensures
            r == !old(self).fetches.price_fetch_pending,
            if r {
                final(self).status@ == "正在获取模型信息和汇率"@ && *final(self) == (Shell {
                    fetches: Fetches { price_fetch_pending: true, ..old(self).fetches },
                    status: final(self).status,
                    ..*old(self)
                })
            } else {
                *final(self) == *old(self)
            },
    {
        if self.fetches.price_fetch_pending {
            return false;
        }
        self.fetches.price_fetch_pending = true;
        self.status = "正在获取模型信息和汇率".to_string();
        true
    }

    /// Whether an account's quota is asked for: not while one is.
    pub fn begin_quota_query(&mut self) -> (r: bool)
        ensures
            r == !old(self).fetches.quota_query_pending,
            if r {
                final(self).status@ == "正在查询额度"@ && *final(self) == (Shell {
                    fetches: Fetches { quota_query_pending: true, ..old(self).fetches },
                    status: final(self).status,
                    ..*old(self)
                })
            } else {
                *final(self) == *old(self)
            },
    {
        if self.fetches.quota_query_pending {
            return false;
        }
        self.fetches.quota_query_pending = true;
        self.status = "正在查询额度".to_string();
        true
    }

    /// Takes in what came of asking for a quota; whether everything is looked
    /// at.
    pub fn quota_queried(&mut self, result: Result<(), String>) -> (r: bool)
        ensures
            r == (result is Ok && !old(self).window_hidden),
            final(self).status@ == match result {
                Ok(_) => "额度已刷新"@,
                Err(message) => "额度查询失败: "@ + message@,
            },
            *final(self) == (Shell {
                fetches: Fetches { quota_query_pending: false, ..old(self).fetches },
                status: final(self).status,
                ..*old(self)
            }),
    {
        self.fetches.quota_query_pending = false;
        match result {
            Ok(_) => {
                self.status = "额度已刷新".to_string();
                !self.window_hidden
            },
            Err(message) => {
                self.status = text::concat("额度查询失败: ", message.as_str());
                false
            },
        }
    }

    /// Whether an upstream's balance is asked for: not while it is.
    pub fn begin_balance_query(&mut self, id: &str) -> (r: bool)
        requires
            old(self).wf(),
        ensures
            r == !name_list::lists(old(self).fetches.balance_pending@, id@),
            final(self).wf(),
            forall|name: Seq<char>|
                #![trigger name_list::lists(final(self).fetches.balance_pending@, name)]
                name_list::lists(final(self).fetches.balance_pending@, name) == (name == id@
                    || name_list::lists(old(self).fetches.balance_pending@, name)),
            if r {
                final(self).status@ == "正在查询余额"@ && *final(self) == (Shell {
                    fetches: Fetches { balance_pending: final(self).fetches.balance_pending, ..old(self).fetches },
                    status: final(self).status,
                    ..*old(self)
                })
            } else {
                *final(self) == *old(self)
            },
    {
        if name_list::is_listed(&self.fetches.balance_pending, id) {
            return false;
        }
        name_list::insert_name(&mut self.fetches.balance_pending, id);
        self.status = "正在查询余额".to_string();
        true
    }

    /// Takes in what came of asking for an upstream's balance; whether everything
    /// is looked at.
    pub fn balance_queried(&mut self, id: &str, result: Result<(), String>) -> (r: bool)
        requires
            old(self).wf(),
        ensures
            final(self).wf(),
            forall|name: Seq<char>|
                #![trigger name_list::lists(final(self).fetches.balance_pending@, name)]
                name_list::lists(final(self).fetches.balance_pending@, name) == (name != id@
                    && name_list::lists(old(self).fetches.balance_pending@, name)),
            r == (result is Ok && !old(self).window_hidden),
            final(self).status@ == match result {
                Ok(_) => "余额已刷新"@,
                Err(message) => "余额查询失败: "@ + message@,
            },
            *final(self) == (Shell {
                fetches: Fetches { balance_pending: final(self).fetches.balance_pending, ..old(self).fetches },
                status: final(self).status,
                ..*old(self)
            }),
    {
        name_list::remove_name(&mut self.fetches.balance_pending, id);
        match result {
            Ok(_) => {
                self.status = "余额已刷新".to_string();
                !self.window_hidden
            },
            Err(message) => {
                self.status = text::concat("余额查询失败: ", message.as_str());
                false
            },
        }
    }

    /// Takes in what came of pairing a node; whether everything is looked at.
    pub fn peer_paired(&mut self, result: Result<String, String>) -> (r: bool)
        ensures
            r == (result is Ok && !old(self).window_hidden),
            final(self).status@ == match result {
                Ok(message) => message@,
                Err(message) => "节点配对失败: "@ + message@,
            },
            *final(self) == (Shell {
                fetches: Fetches { pairing_pending: false, ..old(self).fetches },
                status: final(self).status,
                ..*old(self)
            }),
    {
        self.fetches.pairing_pending = false;
        match result {
            Ok(message) => {
                self.status = message;
                !self.window_hidden
            },
            Err(message) => {
                self.status = text::concat("节点配对失败: ", message.as_str());
                false
            },
        }
    }

    /// Takes in what came of fetching the exchange rate, and gives what is said
    /// of it behind something else.
    pub fn apply_fx_result(&mut self, fx: Result<Option<UsdCnyRate>, String>) -> (r: String)
        requires
            fx matches Ok(Some(rate)) ==> rate.rate.wf(),
        ensures
            r@ == fx_text(fx),
            *final(self) == match fx {
                Ok(Some(rate)) => Shell {
                    fetches: Fetches { usd_cny_rate: Some(rate), ..old(self).fetches },
                    ..*old(self)
                },
                _ => *old(self),
            },
    {
        match fx {
            Ok(Some(rate)) => {
                self.fetches.usd_cny_rate = Some(rate);
                text::concat3(", 汇率 1 USD = ", rate.rate.to_fixed(4).as_str(), " CNY")
            },
            Ok(None) => String::new(),
            Err(message) => text::concat(", 汇率获取失败: ", message.as_str()),
        }
    }

    /// Takes in what came of fetching prices by hand, and of the exchange rate;
    /// whether everything is looked at.
    pub fn prices_fetched(
        &mut self,
        price: Result<usize, String>,
        fx: Result<Option<UsdCnyRate>, String>,
    ) -> (r: bool)
        requires
            fx matches Ok(Some(rate)) ==> rate.rate.wf(),
        ensures
            r == (price is Ok && !old(self).window_hidden),
            final(self).status@ == match price {
                Ok(count) => "模型信息已获取: "@ + number::nat_text(count as nat) + " 条"@
                    + fx_text(fx),
                Err(message) => "模型信息获取失败: "@ + message@ + fx_text(fx),
            },
            *final(self) == (Shell {
                fetches: Fetches {
                    price_fetch_pending: false,
                    usd_cny_rate: match fx {
                        Ok(Some(rate)) => Some(rate),
                        _ => old(self).fetches.usd_cny_rate,
                    },
                    ..old(self).fetches
                },
                status: final(self).status,
                ..*old(self)
            }),
    {
        self.fetches.price_fetch_pending = false;
        let suffix: String = self.apply_fx_result(fx);
        match price {
            Ok(count) => {
                self.status =
                text::concat4(
                    "模型信息已获取: ",
                    number::usize_text(count).as_str(),
                    " 条",
                    suffix.as_str(),
                );
                !self.window_hidden
            },
            Err(message) => {
                self.status =
                text::concat3("模型信息获取失败: ", message.as_str(), suffix.as_str());
                false
            },
        }
    }

    /// Takes in what came of fetching prices at the start, and of the exchange
    /// rate: how many there are, and whether they are new. Whether everything is
    /// looked at.
    pub fn prices_fetched_once(
        &mut self,
        price: Result<(usize, bool), String>,
        fx: Result<Option<UsdCnyRate>, String>,
    ) -> (r: bool)
        requires
            fx matches Ok(Some(rate)) ==> rate.rate.wf(),
        ensures
            r == (price matches Ok(found) && found.1 && !old(self).window_hidden),
            final(self).status@ == match price {
                Ok(found) => if found.1 {
                    "模型信息已获取: "@ + number::nat_text(found.0 as nat) + " 条"@ + fx_text(fx)
                } else if found.0 > 0 {
                    "模型信息缓存可用: "@ + number::nat_text(found.0 as nat) + " 条"@ + fx_text(fx)
                } else {
                    old(self).status@
                },
                Err(message) => "模型信息获取失败, 将使用已有缓存: "@ + message@ + fx_text(fx),
            },
            *final(self) == (Shell {
                fetches: Fetches {
                    price_fetch_pending: false,
                    usd_cny_rate: match fx {
                        Ok(Some(rate)) => Some(rate),
                        _ => old(self).fetches.usd_cny_rate,
                    },
                    ..old(self).fetches
                },
                status: final(self).status,
                ..*old(self)
            }),
    {
        self.fetches.price_fetch_pending = false;
        let suffix: String = self.apply_fx_result(fx);
        match price {
            Ok((count, fetched)) => {
                let digits: String = number::usize_text(count);
                if fetched {
                    self.status =
                    text::concat4(
                        "模型信息已获取: ",
                        digits.as_str(),
                        " 条",
                        suffix.as_str(),
                    );
                    !self.window_hidden
                } else {
                    if count > 0 {
                        self.status =
                        text::concat4(
                            "模型信息缓存可用: ",
                            digits.as_str(),
                            " 条",
                            suffix.as_str(),
                        );
                    }
                    false
                }
            },
            Err(message) => {
                self.status =
                text::concat3(
                    "模型信息获取失败, 将使用已有缓存: ",
                    message.as_str(),
                    suffix.as_str(),
                );
                false
            },
        }
    }
}

impl Shell {
    /// Whether a tray is made: once.
    pub fn wants_tray(&self) -> (r: bool)
        ensures
            r == (!self.has_tray && !self.tray_failed),
    {
        !self.has_tray && !self.tray_failed
    }

    /// Takes in what came of making the tray.
    pub fn tray_made(&mut self, result: Result<(), String>)
        ensures
            match result {
                Ok(_) => *final(self) == (Shell { has_tray: true, ..*old(self) }),
                Err(message) => final(self).status@ == "系统托盘初始化失败: "@ + message@
                    && *final(self) == (Shell {
                    tray_failed: true,
                    status: final(self).status,
                    ..*old(self)
                }),
            },
    {
        match result {
            Ok(_) => {
                self.has_tray = true;
            },
            Err(message) => {
                self.tray_failed = true;
                self.status = text::concat("系统托盘初始化失败: ", message.as_str());
            },
        }
    }

    /// The address that the service is started on, unless it runs.
    pub fn begin_server(&mut self) -> (r: Option<String>)
        ensures
            if old(self).services.server_running {
                r is None && final(self).status@ == "服务已经在运行"@ && *final(self) == (Shell {
                    status: final(self).status,
                    ..*old(self)
                })
            } else {
                text::opt_view(r) == Some(old(self).bind_addr@) && *final(self) == *old(self)
            },
    {
        if self.services.server_running {
            self.status = "服务已经在运行".to_string();
            None
        } else {
            Some(self.bind_addr.clone())
        }
    }

    /// Takes in what came of starting the service on an address.
    pub fn server_started(&mut self, bind_addr: &str, result: Result<(), StartError>)
        ensures
            final(self).status@ == match result {
                Ok(_) => "服务已启动: http://"@ + bind_addr@,
                Err(StartError::Save(message)) => "保存监听地址失败: "@ + message@,
                Err(StartError::Listen(message)) => "服务启动失败: "@ + message@,
                Err(StartError::Discovery(message)) => "服务启动失败: "@ + message@,
            },
            *final(self) == (Shell {
                services: Services {
                    server_running: old(self).services.server_running || result is Ok,
                    ..old(self).services
                },
                status: final(self).status,
                ..*old(self)
            }),
    {
        match result {
            Ok(_) => {
                self.services.server_running = true;
                self.status = text::concat("服务已启动: http://", bind_addr);
            },
            Err(StartError::Save(message)) => {
                self.status = text::concat("保存监听地址失败: ", message.as_str());
            },
            Err(StartError::Listen(message)) => {
                self.status = text::concat("服务启动失败: ", message.as_str());
            },
            Err(StartError::Discovery(message)) => {
                self.status = text::concat("服务启动失败: ", message.as_str());
            },
        }
    }

    /// Stops the service where it runs.
    pub fn stop_server(&mut self)
        ensures
            final(self).status@ == if old(self).services.server_running {
                "服务已停止"@
            } else {
                old(self).status@
            },
            *final(self) == (Shell {
                services: Services { server_running: false, ..old(self).services },
                status: final(self).status,
                ..*old(self)
            }),
    {
        if self.services.server_running {
            self.services.server_running = false;
            self.status = "服务已停止".to_string();
        }
    }

    /// Whether the node listens from now on: not where it does.
    pub fn begin_peer_server(&mut self) -> (r: bool)
        ensures
            r == !old(self).services.peer_running,
            if r {
                *final(self) == *old(self)
            } else {
                final(self).status@ == "节点监听已经在运行"@ && *final(self) == (Shell {
                    status: final(self).status,
                    ..*old(self)
                })
            },
    {
        if self.services.peer_running {
            self.status = "节点监听已经在运行".to_string();
            false
        } else {
            true
        }
    }

    /// Takes in what came of letting the node listen on an address. A node that
    /// cannot be found does not listen.
    pub fn peer_server_started(&mut self, bind_addr: &str, result: Result<(), StartError>)
        ensures
            final(self).status@ == match result {
                Ok(_) => "节点监听已启动: "@ + bind_addr@,
                Err(StartError::Save(message)) => "保存节点监听地址失败: "@ + message@,
                Err(StartError::Listen(message)) => "节点监听启动失败: "@ + message@,
                Err(StartError::Discovery(message)) => "节点发现启动失败: "@ + message@,
            },
            *final(self) == (Shell {
                services: Services {
                    peer_running: match result {
                        Ok(_) => true,
                        Err(StartError::Discovery(_)) => false,
                        _ => old(self).services.peer_running,
                    },
                    ..old(self).services
                },
                status: final(self).status,
                ..*old(self)
            }),
    {
        match result {
            Ok(_) => {
                self.services.peer_running = true;
                self.status = text::concat("节点监听已启动: ", bind_addr);
            },
            Err(StartError::Save(message)) => {
                self.status = text::concat("保存节点监听地址失败: ", message.as_str());
            },
            Err(StartError::Listen(message)) => {
                self.status = text::concat("节点监听启动失败: ", message.as_str());
            },
            Err(StartError::Discovery(message)) => {
                self.services.peer_running = false;
                self.status = text::concat("节点发现启动失败: ", message.as_str());
            },
        }
    }

    /// Lets the node listen no longer.
    pub fn stop_peer_server(&mut self)
        ensures
            final(self).status@ == if old(self).services.peer_running {
                "节点监听已停止"@
            } else {
                old(self).status@
            },
            *final(self) == (Shell {
                services: Services { peer_running: false, ..old(self).services },
                status: final(self).status,
                ..*old(self)
            }),
    {
        if self.services.peer_running {
            self.services.peer_running = false;
            self.status = "节点监听已停止".to_string();
        }
    }

    /// Takes in what came of looking for nodes anew.
    pub fn discovery_restarted(&mut self, result: Result<(), String>)
        ensures
            final(self).status@ == match result {
                Ok(_) => old(self).status@,
                Err(message) => "刷新节点发现失败: "@ + message@,
            },
            *final(self) == (Shell { status: final(self).status, ..*old(self) }),
    {
        if let Err(message) = result {
            self.status = text::concat("刷新节点发现失败: ", message.as_str());
        }
    }

    /// Ends the application: nothing runs after it.
    pub fn exit_app(&mut self)
        ensures
            final(self).status@ == if old(self).services.server_running {
                "服务已停止"@
            } else if old(self).services.peer_running {
                "节点监听已停止"@
            } else {
                old(self).status@
            },
            *final(self) == (Shell {
                exit_requested: true,
                services: Services { server_running: false, peer_running: false },
                status: final(self).status,
                ..*old(self)
            }),
    {
        self.exit_requested = true;
        self.stop_peer_server();
        self.stop_server();
    }

    /// Takes in what was answered to the question whether the application ends:
    /// whether it does.
    pub fn answer_exit(&mut self, confirmed: bool, cancelled: bool, open: bool) -> (r: bool)
        ensures
            r == (old(self).exit_confirm_open && confirmed),
            *final(self) == (Shell {
                exit_confirm_open: old(self).exit_confirm_open && !confirmed && !cancelled && open,
                ..*old(self)
            }),
    {
        let ends: bool = self.exit_confirm_open && confirmed;
        self.exit_confirm_open = self.exit_confirm_open && !confirmed && !cancelled && open;
        ends
    }

    /// Takes in that looking at everything failed.
    pub fn refresh_failed(&mut self, message: &str)
        ensures
            final(self).status@ == "刷新失败: "@ + message@,
            *final(self) == (Shell { status: final(self).status, ..*old(self) }),
    {
        self.status = text::concat("刷新失败: ", message);
    }
}

/// Why the service, or the node, does not listen.
#[derive(Debug)]
pub enum StartError {
    /// The address could not be stored.
    Save(String),
    /// Nothing listens on the address.
    Listen(String),
    /// The node cannot be found by others.
    Discovery(String),
}

/// Whether a group that is being edited still is one of some groups.
pub fn keeps_group_editor(groups: &Vec<ScheduleGroup>, id: &str) -> (r: bool)
    ensures
        r == exists|i: int| 0 <= i < groups@.len() && #[trigger] groups@[i].id@ == id@,
{
    let mut i: usize = 0;
    while i < groups.len()
        invariant
            i <= groups@.len(),
            forall|j: int| 0 <= j < i ==> #[trigger] groups@[j].id@ != id@,
        decreases groups@.len() - i,
    {
        if text::same(groups[i].id.as_str(), id) {
            return true;
        }
        i = i + 1;
    }
    false
}

/// What is said of the exchange rate behind something else.
pub open spec fn fx_text(fx: Result<Option<UsdCnyRate>, String>) -> Seq<char> {
    match fx {
        Ok(Some(rate)) => ", 汇率 1 USD = "@ + double::fixed(rate.rate, 4) + " CNY"@,
        Ok(None) => Seq::empty(),
        Err(message) => ", 汇率获取失败: "@ + message@,
    }
}

/// Announcements are acted on once: looked at again, they are not new.
pub proof fn law_announcements_are_seen_once(
    watch: &Watch,
    tab: Tab,
    versions: Versions,
    now: u128,
)
    ensures
        ({
            let after = watch.looked(false, tab, versions, now).0;
            let last = after.looked(false, tab, versions, now).0;
            let again = last.looked(false, tab, versions, now).1;
            &&& !after.looked(false, tab, versions, now).1.peers
            &&& !again.peers
            &&& !again.everything
        }),
{
}

/// A hidden window looks at nothing.
pub proof fn law_hidden_window_rests(watch: &Watch, tab: Tab, versions: Versions, now: u128)
    ensures
        watch.looked(true, tab, versions, now).0 == *watch,
        !watch.looked(true, tab, versions, now).1.everything,
        !watch.looked(true, tab, versions, now).1.sessions,
        !watch.looked(true, tab, versions, now).1.peers,
        !watch.looked(true, tab, versions, now).1.log_count,
{
}

/// What can be deleted.
#[derive(Debug)]
pub enum DeleteAction {
    Upstream(String),
    ScheduleGroup(String),
    TemporaryAccessKey(String),
    /// A rule of the group that is being made or, else, edited.
    ScheduleRouteRule { new_group: bool, id: String },
}

/// A question before something is deleted.
#[derive(Debug)]
pub struct DeleteConfirmation {
    pub title: String,
    pub message: String,
    pub action: DeleteAction,
}

/// What the answer to the question comes to: what is deleted, and whether the
/// question stays.
pub fn answer_delete(
    confirmation: DeleteConfirmation,
    confirmed: bool,
    cancelled: bool,
    open: bool,
) -> (r: (Option<DeleteAction>, Option<DeleteConfirmation>))
    ensures
        r == if confirmed {
            (Some(confirmation.action), None::<DeleteConfirmation>)
        } else if cancelled || !open {
            (None::<DeleteAction>, None::<DeleteConfirmation>)
        } else {
            (None::<DeleteAction>, Some(confirmation))
        },
{
    if confirmed {
        (Some(confirmation.action), None)
    } else if cancelled || !open {
        (None, None)
    } else {
        (None, Some(confirmation))
    }
}

/// Takes the rules of an identifier out of a group's.
pub fn remove_rule(rules: &mut Vec<ScheduleRouteRule>, id: &str)
    ensures
        final(rules)@ == old(rules)@.filter(|rule: ScheduleRouteRule| rule.id@ != id@),
{
    let ghost all = rules@;
    let ghost keeps = |rule: ScheduleRouteRule| rule.id@ != id@;
    let mut i: usize = rules.len();
    proof {
        assert(all.take(i as int) =~= all);
        assert(rules@.skip(i as int) =~= Seq::empty());
        assert(all.filter(keeps) + Seq::<ScheduleRouteRule>::empty() =~= all.filter(keeps));
    }
    while i > 0
        invariant
            i <= all.len(),
            i <= rules@.len(),
            keeps == (|rule: ScheduleRouteRule| rule.id@ != id@),
            rules@.take(i as int) == all.take(i as int),
            all.filter(keeps) == all.take(i as int).filter(keeps) + rules@.skip(i as int),
        decreases i,
    {
        let ghost before = rules@;
        i = i - 1;
        proof {
            let longer = all.take(i as int + 1);
            assert(longer.drop_last() =~= all.take(i as int));
            assert(before[i as int] == before.take(i as int + 1)[i as int]);
            assert(longer.last() == before[i as int]);
            reveal(Seq::filter);
            assert forall|j: int| 0 <= j < i implies before[j] == all[j] by {
                assert(before.take(i as int + 1)[j] == all.take(i as int + 1)[j]);
            }
        }
        if text::same(rules[i].id.as_str(), id) {
            rules.remove(i);
            proof {
                assert(rules@.skip(i as int) =~= before.skip(i as int + 1));
                assert(rules@.take(i as int) =~= all.take(i as int));
            }
        } else {
            proof {
                assert(before.skip(i as int) =~= seq![before[i as int]] + before.skip(
                    i as int + 1,
                ));
                assert(all.take(i as int).filter(keeps).push(before[i as int]) + before.skip(
                    i as int + 1,
                ) =~= all.take(i as int).filter(keeps) + before.skip(i as int));
                assert(before.take(i as int) =~= all.take(i as int));
            }
        }
    }
    proof {
        assert(all.take(0) =~= Seq::empty());
        reveal(Seq::filter);
        assert(rules@.skip(0) =~= rules@);
        assert(all.filter(keeps) =~= rules@);
    }
}

/// A hidden window looks at nothing and remembers nothing new. A window in
/// sight looks at sessions and nodes exactly where they changed, the sessions
/// also each second while their page is open, and at everything exactly where
/// a balance or a request was announced.
pub proof fn law_window_looks_at_what_changed(
    watch: &Watch,
    tab: Tab,
    versions: Versions,
    now: u128,
)
    ensures
        ({
            let (after, look) = watch.looked(true, tab, versions, now);
            &&& after == *watch
            &&& !look.sessions && !look.peers && !look.everything && !look.log_count
            &&& look.repaint_millis == 5_000
        }),
        ({
            let (after, look) = watch.looked(false, tab, versions, now);
            &&& look.repaint_millis == 500
            &&& versions.cache_keepalive != watch.seen.cache_keepalive ==> look.sessions
            &&& look.sessions && versions.cache_keepalive == watch.seen.cache_keepalive ==> tab
                == Tab::CacheKeepalive && now - watch.keepalive_refreshed_at >= 1_000_000_000
            &&& tab == Tab::CacheKeepalive && now - watch.keepalive_refreshed_at >= 1_000_000_000
                && versions.balance_snapshot == watch.seen.balance_snapshot ==> look.sessions
            &&& look.peers <==> versions.peer != watch.seen.peer
            &&& look.everything <==> versions.balance_snapshot != watch.seen.balance_snapshot
                || versions.request_log != watch.seen.request_log
            &&& look.log_count <==> !look.everything && now - watch.log_polled_at
                >= 10_000_000_000
            &&& look.log_count ==> after.log_polled_at == now
            &&& !look.log_count ==> after.log_polled_at == watch.log_polled_at
            &&& after.seen.cache_keepalive == versions.cache_keepalive
            &&& after.seen.peer == versions.peer
            &&& after.seen.balance_snapshot == versions.balance_snapshot
            &&& after.seen.exit_request == watch.seen.exit_request
            &&& after.seen.show_window == watch.seen.show_window
        }),
{
}

/// Once a change was looked at, the same look does not come again.
pub proof fn law_change_is_looked_at_once(watch: &Watch, tab: Tab, versions: Versions, now: u128)
    requires
        versions.request_log == watch.seen.request_log,
        tab != Tab::CacheKeepalive,
    ensures
        ({
            let after = watch.looked(false, tab, versions, now).0;
            let again = after.looked(false, tab, versions, now).1;
            !again.sessions && !again.peers && !again.everything
        }),
{
}

/// A stored switch is on exactly where it says so; one that is on by default is
/// off exactly where it says so.
pub proof fn law_switches_are_read(value: String)
    ensures
        switched_on(Some(value)) <==> value@ == "true"@,
        !switched_on(None),
        not_off(Some(value)) <==> value@ != "false"@,
        not_off(None),
        switched_on(Some(value)) ==> not_off(Some(value)),
        stored_or(Some(value), Seq::empty()) == value@,
{
    reveal_strlit("true");
    reveal_strlit("false");
    assert("true"@.len() == 4);
    assert("false"@.len() == 5);
}

} // verus!
