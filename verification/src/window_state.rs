//! The place and size of the window as they are stored, and the return to full
//! screen after a start.

use crate::double;
use crate::float64::Double;
use vstd::prelude::*;

verus! {

/// The name under which the window's state is stored.
pub const WINDOW_KEY: &'static str = "window";

/// Nanoseconds from the moment the window is in sight to the first attempt.
pub const FULLSCREEN_FIRST_DELAY: u128 = 500_000_000;

/// Nanoseconds between two attempts.
pub const FULLSCREEN_RETRY_INTERVAL: u128 = 700_000_000;

/// How often full screen is asked for before it is given up.
pub const FULLSCREEN_MAX_ATTEMPTS: u32 = 5;

/// A place or a size.
#[derive(Debug, Clone, Copy, PartialEq, Eq, Structural)]
pub struct Pair {
    pub x: Double,
    pub y: Double,
}

impl Pair {
    /// Both parts are valid numbers.
    pub open spec fn wf(self) -> bool {
        self.x.wf() && self.y.wf()
    }
}

/// The state of the window as it is stored.
#[derive(Debug, Clone, Copy, PartialEq, Eq, Structural)]
pub struct PersistedWindowSettings {
    pub inner_position_pixels: Option<Pair>,
    pub outer_position_pixels: Option<Pair>,
    pub fullscreen: bool,
    pub maximized: bool,
    pub inner_size_points: Option<Pair>,
}

/// The place below which a window was never shown.
pub open spec fn far_off() -> Double {
    double::of_int(-30_000)
}

/// Whether a place is the one of a window that was never shown.
pub open spec fn is_placeholder(p: Pair) -> bool {
    !(p.x is Finite) || !(p.y is Finite) || double::at_most(p.x, far_off()) || double::at_most(
        p.y,
        far_off(),
    )
}

/// Whether a size is one.
pub open spec fn is_size(p: Pair) -> bool {
    &&& double::below(double::zero(false), p.x)
    &&& double::below(double::zero(false), p.y)
    &&& p.x is Finite
    &&& p.y is Finite
}

fn is_finite(x: Double) -> (r: bool)
    ensures
        r == (x is Finite),
{
    match x {
        Double::Finite { .. } => true,
        _ => false,
    }
}

/// Whether a place is the one of a window that was never shown.
pub fn is_placeholder_position(p: Pair) -> (r: bool)
    requires
        p.wf(),
    ensures
        r == is_placeholder(p),
{
    let far: Double = Double::from_i64(-30_000);
    !is_finite(p.x) || !is_finite(p.y) || p.x.is_at_most(far) || p.y.is_at_most(far)
}

impl PersistedWindowSettings {
    /// The parts are valid numbers.
    pub open spec fn wf(&self) -> bool {
        &&& self.inner_position_pixels matches Some(p) ==> p.wf()
        &&& self.outer_position_pixels matches Some(p) ==> p.wf()
        &&& self.inner_size_points matches Some(p) ==> p.wf()
    }

    /// Whether a window can be shown as this says: it has a size, and no place
    /// is that of a window that was never shown.
    pub open spec fn valid(&self) -> bool {
        &&& self.inner_size_points matches Some(size) && is_size(size)
        &&& self.inner_position_pixels matches Some(p) ==> !is_placeholder(p)
        &&& self.outer_position_pixels matches Some(p) ==> !is_placeholder(p)
    }

    /// Whether a window can be shown as this says.
    pub fn is_valid(&self) -> (r: bool)
        requires
            self.wf(),
        ensures
            r == self.valid(),
    {
        let size_ok: bool = match self.inner_size_points {
            Some(size) => {
                Double::nothing().is_below(size.x) && Double::nothing().is_below(size.y)
                    && is_finite(size.x) && is_finite(size.y)
            },
            None => false,
        };
        let inner_ok: bool = match self.inner_position_pixels {
            Some(p) => !is_placeholder_position(p),
            None => true,
        };
        let outer_ok: bool = match self.outer_position_pixels {
            Some(p) => !is_placeholder_position(p),
            None => true,
        };
        size_ok && inner_ok && outer_ok
    }
}

/// What is done with a stored state.
#[derive(Debug, Clone, Copy, PartialEq, Eq, Structural)]
pub enum Sanitizing {
    /// It stays.
    Keep,
    /// Another one takes its place.
    Replace(PersistedWindowSettings),
    /// It is taken out.
    Remove,
}

/// What is done with the state that is about to be stored, and the last valid
/// one from then on: an invalid state makes way for the last valid one, or goes.
pub open spec fn sanitized(
    current: Option<PersistedWindowSettings>,
    last_good: Option<PersistedWindowSettings>,
) -> (Sanitizing, Option<PersistedWindowSettings>) {
    match current {
        Some(settings) => if settings.valid() {
            (Sanitizing::Keep, Some(settings))
        } else {
            match last_good {
                Some(good) => (Sanitizing::Replace(good), Some(good)),
                None => (Sanitizing::Remove, None),
            }
        },
        None => (Sanitizing::Keep, last_good),
    }
}

/// What is done with the state that is about to be stored, and the last valid
/// one from then on.
pub fn sanitize_on_save(
    current: Option<PersistedWindowSettings>,
    last_good: Option<PersistedWindowSettings>,
) -> (r: (Sanitizing, Option<PersistedWindowSettings>))
    requires
        current matches Some(settings) ==> settings.wf(),
    ensures
        r == sanitized(current, last_good),
{
    match current {
        Some(settings) => if settings.is_valid() {
            (Sanitizing::Keep, Some(settings))
        } else {
            match last_good {
                Some(good) => (Sanitizing::Replace(good), Some(good)),
                None => (Sanitizing::Remove, None),
            }
        },
        None => (Sanitizing::Keep, last_good),
    }
}

/// Whether a state that was read from the file is taken out of it: an invalid
/// one, or one that cannot be read.
pub fn drops_from_file(stored: Option<PersistedWindowSettings>) -> (r: bool)
    requires
        stored matches Some(settings) ==> settings.wf(),
    ensures
        r == !(stored matches Some(settings) && settings.valid()),
{
    match stored {
        Some(settings) => !settings.is_valid(),
        None => true,
    }
}

/// The state that a start goes by: a stored one counts only where it is valid.
/// Whether the window gets its usual size instead.
pub fn restored_at_start(persisted: Option<PersistedWindowSettings>) -> (r: (
    Option<PersistedWindowSettings>,
    bool,
))
    requires
        persisted matches Some(settings) ==> settings.wf(),
    ensures
        match persisted {
            Some(settings) => if settings.valid() {
                r == (Some(settings), false)
            } else {
                r == (None::<PersistedWindowSettings>, true)
            },
            None => r == (None::<PersistedWindowSettings>, false),
        },
{
    match persisted {
        Some(settings) => if settings.is_valid() {
            (Some(settings), false)
        } else {
            (None, true)
        },
        None => (None, false),
    }
}

/// The state without full screen, where it had it.
pub fn take_initial_fullscreen(settings: PersistedWindowSettings) -> (r: Option<
    PersistedWindowSettings,
>)
    ensures
        r == if settings.fullscreen {
            Some(PersistedWindowSettings { fullscreen: false, ..settings })
        } else {
            None
        },
{
    if settings.fullscreen {
        let mut cleared: PersistedWindowSettings = settings;
        cleared.fullscreen = false;
        Some(cleared)
    } else {
        None
    }
}

/// What is stored is never invalid where there ever was a valid state.
pub proof fn law_stored_state_is_valid(
    current: Option<PersistedWindowSettings>,
    last_good: Option<PersistedWindowSettings>,
)
    requires
        last_good matches Some(good) ==> good.valid(),
    ensures
        ({
            let (action, good) = sanitized(current, last_good);
            &&& good matches Some(settings) ==> settings.valid()
            &&& match action {
                Sanitizing::Keep => current matches Some(settings) ==> settings.valid(),
                Sanitizing::Replace(settings) => settings.valid(),
                Sanitizing::Remove => last_good is None,
            }
        }),
{
}

/// Full screen is taken out of a state once.
pub proof fn law_fullscreen_is_taken_once(settings: PersistedWindowSettings)
    ensures
        !(PersistedWindowSettings { fullscreen: false, ..settings }).fullscreen,
        (PersistedWindowSettings { fullscreen: false, ..settings }).valid() == settings.valid(),
{
}

/// The return to full screen, which waits until the window is in sight. Times
/// are readings of the monotonic clock.
#[derive(Debug, Clone, Copy, PartialEq, Eq, Structural)]
pub struct DeferredFullscreen {
    pub pending: bool,
    pub next_attempt_at: Option<u128>,
    pub attempts: u32,
}

/// What is to be done for it.
#[derive(Debug, Clone, Copy, PartialEq, Eq, Structural)]
pub enum FullscreenStep {
    Nothing,
    /// Another look after some nanoseconds.
    Wait(u128),
    /// Full screen is asked for, and another look taken after some nanoseconds.
    Request(u128),
    /// It is there.
    Restored,
    /// It is given up.
    GiveUp,
}

impl DeferredFullscreen {
    /// A return that is due or not.
    pub fn new(pending: bool) -> (r: Self)
        ensures
            r == (DeferredFullscreen { pending, next_attempt_at: None, attempts: 0 }),
    {
        DeferredFullscreen { pending, next_attempt_at: None, attempts: 0 }
    }

    /// When the next attempt is made.
    pub open spec fn next(self, now: u128) -> int {
        match self.next_attempt_at {
            Some(at) => at as int,
            None => now + FULLSCREEN_FIRST_DELAY,
        }
    }

    /// What becomes of the return at some time, and what is to be done.
    pub open spec fn stepped(self, now: u128, visible: bool, fullscreen: bool) -> (
        Self,
        FullscreenStep,
    ) {
        let next = self.next(now);
        let over = DeferredFullscreen { pending: false, next_attempt_at: None, ..self };
        if !self.pending {
            (self, FullscreenStep::Nothing)
        } else if !visible {
            (DeferredFullscreen { next_attempt_at: None, ..self }, FullscreenStep::Nothing)
        } else if now < next {
            (
                DeferredFullscreen { next_attempt_at: Some(next as u128), ..self },
                FullscreenStep::Wait((next - now) as u128),
            )
        } else if fullscreen {
            (over, FullscreenStep::Restored)
        } else if self.attempts >= FULLSCREEN_MAX_ATTEMPTS {
            (over, FullscreenStep::GiveUp)
        } else {
            (
                DeferredFullscreen {
                    attempts: (self.attempts + 1) as u32,
                    next_attempt_at: Some((now + FULLSCREEN_RETRY_INTERVAL) as u128),
                    ..self
                },
                FullscreenStep::Request(FULLSCREEN_RETRY_INTERVAL),
            )
        }
    }

    /// Takes a step at some time, it being known whether the window is in sight
    /// and fills the screen.
    pub fn maybe_apply(&mut self, now: u128, visible: bool, fullscreen: bool) -> (r: FullscreenStep)
        requires
            now + FULLSCREEN_RETRY_INTERVAL <= u128::MAX,
        ensures
            (*final(self), r) == old(self).stepped(now, visible, fullscreen),
    {
        if !self.pending {
            return FullscreenStep::Nothing;
        }
        if !visible {
            self.next_attempt_at = None;
            return FullscreenStep::Nothing;
        }
        let next: u128 = match self.next_attempt_at {
            Some(at) => at,
            None => now + FULLSCREEN_FIRST_DELAY,
        };
        if now < next {
            self.next_attempt_at = Some(next);
            return FullscreenStep::Wait(next - now);
        }
        if fullscreen {
            self.pending = false;
            self.next_attempt_at = None;
            return FullscreenStep::Restored;
        }
        if self.attempts >= FULLSCREEN_MAX_ATTEMPTS {
            self.pending = false;
            self.next_attempt_at = None;
            return FullscreenStep::GiveUp;
        }
        self.attempts = self.attempts + 1;
        self.next_attempt_at = Some(now + FULLSCREEN_RETRY_INTERVAL);
        FullscreenStep::Request(FULLSCREEN_RETRY_INTERVAL)
    }
}

/// Full screen is asked for only while the window is in sight, and no more
/// often than allowed.
pub proof fn law_fullscreen_waits_for_the_window(
    d: DeferredFullscreen,
    now: u128,
    visible: bool,
    fullscreen: bool,
)
    requires
        d.attempts <= FULLSCREEN_MAX_ATTEMPTS,
    ensures
        ({
            let (after, step) = d.stepped(now, visible, fullscreen);
            &&& step is Request ==> visible && d.pending && !fullscreen && after.attempts
                == d.attempts + 1
            &&& after.attempts <= FULLSCREEN_MAX_ATTEMPTS
            &&& !d.pending ==> after == d
        }),
{
}

/// A window can be shown as stored exactly where its size is finite and above
/// zero both ways, and neither of its places lies 30000 or more to the left of
/// or above the origin.
pub proof fn law_valid_state_has_a_size_and_is_in_sight(s: &PersistedWindowSettings)
    ensures
        s.inner_size_points is None ==> !s.valid(),
        s.inner_size_points matches Some(size) ==> {
            &&& !(size.x is Finite) || !(size.y is Finite) ==> !s.valid()
            &&& !double::below(double::zero(false), size.x) ==> !s.valid()
            &&& !double::below(double::zero(false), size.y) ==> !s.valid()
            &&& s.inner_position_pixels is None && s.outer_position_pixels is None
                && size.x is Finite && size.y is Finite && double::below(double::zero(false), size.x)
                && double::below(double::zero(false), size.y) ==> s.valid()
        },
        s.inner_position_pixels matches Some(p) ==> (s.valid() ==> p.x is Finite && p.y is Finite
            && double::below(double::of_int(-30_000), p.x) && double::below(
            double::of_int(-30_000),
            p.y,
        )),
        s.outer_position_pixels matches Some(p) ==> (s.valid() ==> p.x is Finite && p.y is Finite
            && double::below(double::of_int(-30_000), p.x) && double::below(
            double::of_int(-30_000),
            p.y,
        )),
{
    lemma_far_off_is_a_number();
}

/// The place below which a window was never shown is a number.
proof fn lemma_far_off_is_a_number()
    ensures
        far_off() != Double::Nan,
{
}

/// What is stored is what is shown where that is valid. Otherwise the last
/// valid state is stored in its place and stays the last valid one.
pub proof fn law_valid_state_is_stored_as_it_is(
    current: PersistedWindowSettings,
    last_good: Option<PersistedWindowSettings>,
)
    ensures
        current.valid() ==> sanitized(Some(current), last_good) == (
            Sanitizing::Keep,
            Some(current),
        ),
        !current.valid() && last_good is Some ==> sanitized(Some(current), last_good) == (
            Sanitizing::Replace(last_good->0),
            last_good,
        ),
        !current.valid() && last_good is None ==> sanitized(Some(current), last_good).0
            is Remove,
        sanitized(None, last_good) == (Sanitizing::Keep, last_good),
{
}

/// Full screen is first asked for half a second after the window came in sight
/// and then every 0.7 seconds, five times; then it is given up. It ends as soon
/// as the window fills the screen, and a window out of sight starts the wait
/// anew.
pub proof fn law_fullscreen_is_asked_for_in_its_time(d: DeferredFullscreen, now: u128)
    requires
        now + 700_000_000 <= u128::MAX,
        d.pending,
    ensures
        d.next_attempt_at is None ==> d.stepped(now, true, false).1 == FullscreenStep::Wait(
            500_000_000,
        ) && d.stepped(now, true, false).0.next_attempt_at == Some((now + 500_000_000) as u128),
        d.next_attempt_at matches Some(at) ==> {
            &&& now < at ==> d.stepped(now, true, false).1 == FullscreenStep::Wait(
                (at - now) as u128,
            ) && d.stepped(now, true, false).0 == d
            &&& now >= at ==> d.stepped(now, true, true).1 is Restored && !d.stepped(
                now,
                true,
                true,
            ).0.pending
            &&& now >= at && d.attempts < 5 ==> d.stepped(now, true, false).1
                == FullscreenStep::Request(700_000_000) && d.stepped(
                now,
                true,
                false,
            ).0.next_attempt_at == Some((now + 700_000_000) as u128) && d.stepped(
                now,
                true,
                false,
            ).0.attempts == d.attempts + 1
            &&& now >= at && d.attempts >= 5 ==> d.stepped(now, true, false).1 is GiveUp
                && !d.stepped(now, true, false).0.pending
        },
        d.stepped(now, false, false).0.next_attempt_at is None,
        d.stepped(now, false, false).0.pending,
        d.stepped(now, false, false).1 is Nothing,
{
}

} // verus!
