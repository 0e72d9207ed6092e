//! How far the end of an answer has scrolled.

use super::{LiveOutputSettings, LiveRequestSnapshot};
use crate::clock;
use crate::double;
use crate::float64::Double;
use vstd::prelude::*;

verus! {

/// The width of the window before it is known, in characters.
pub const DEFAULT_WINDOW_CHARS: usize = 22;

/// How far the end of an answer has scrolled. Times are readings of the
/// monotonic clock, in nanoseconds.
#[derive(Debug, Clone, Copy)]
pub struct LiveTailScrollState {
    pub visible_end_char_index: Double,
    pub target_end_char_index: usize,
    pub window_chars: usize,
    pub last_advanced_at: u128,
    pub reached_end_at: Option<u128>,
}

/// An index in double precision.
pub open spec fn index(n: usize) -> Double {
    double::of_int(n as int)
}

fn index_value(n: usize) -> (r: Double)
    ensures
        r == index(n),
        r.wf(),
{
    Double::from_u64(n as u64)
}

/// A number of nanoseconds as seconds in double precision: the whole seconds
/// and the rest, each rounded, and their sum.
pub open spec fn seconds(nanos: nat) -> Double {
    double::sum_of(
        double::of_int((nanos / 1_000_000_000) as int),
        double::divided_by(double::of_int((nanos % 1_000_000_000) as int), 1_000_000_000),
    )
}

/// The nanoseconds from one instant to another; none where the second does not
/// come later.
pub open spec fn nanos_between(from: u128, to: u128) -> nat {
    if to > from {
        (to - from) as nat
    } else {
        0
    }
}

/// Whether the text still has to scroll. Whole characters count; as the end is
/// a whole number, that the place before it is below is the same.
pub open spec fn lags(s: LiveTailScrollState) -> bool {
    double::below(s.visible_end_char_index, index(s.target_end_char_index))
}

/// The state once it is known whether the request has ended: the moment at
/// which the text of a finished one stood still is kept.
pub open spec fn with_reached(s: LiveTailScrollState, finished: bool, now: u128) -> LiveTailScrollState {
    LiveTailScrollState {
        reached_end_at: if finished && !lags(s) {
            match s.reached_end_at {
                Some(at) => Some(at),
                None => Some(now),
            }
        } else {
            None
        },
        ..s
    }
}

/// The state once time went on: no faster than allowed, and not beyond the end.
pub open spec fn advanced(
    s: LiveTailScrollState,
    settings: LiveOutputSettings,
    now: u128,
) -> LiveTailScrollState {
    LiveTailScrollState {
        visible_end_char_index: if settings.scroll_limit_enabled {
            double::smaller_of(
                double::sum_of(
                    s.visible_end_char_index,
                    double::product_of(
                        seconds(nanos_between(s.last_advanced_at, now)),
                        double::of_int(settings.max_scroll_chars_per_second as int),
                    ),
                ),
                index(s.target_end_char_index),
            )
        } else {
            index(s.target_end_char_index)
        },
        last_advanced_at: now,
        ..s
    }
}

/// The first place at which the window is full, or the end.
pub open spec fn full_window_end(item: &LiveRequestSnapshot, window: usize) -> int {
    let end = item.tail_start_char_index + window;
    if end > item.tail_end_char_index {
        item.tail_end_char_index as int
    } else {
        end
    }
}

/// A place held between that at which the window is full and the end; the end
/// where scrolling is not limited.
pub open spec fn placed(
    place: Double,
    item: &LiveRequestSnapshot,
    window: usize,
    limited: bool,
) -> Double {
    if limited {
        double::smaller_of(
            double::larger_of(place, double::of_int(full_window_end(item, window))),
            index(item.tail_end_char_index),
        )
    } else {
        index(item.tail_end_char_index)
    }
}

/// The state of a request that is new.
pub open spec fn fresh(
    item: &LiveRequestSnapshot,
    settings: LiveOutputSettings,
    now: u128,
) -> LiveTailScrollState {
    let limited = settings.scroll_limit_enabled && item.tail_end_char_index
        - item.tail_start_char_index > DEFAULT_WINDOW_CHARS;
    let visible = if limited {
        double::of_int(item.tail_start_char_index + DEFAULT_WINDOW_CHARS)
    } else {
        index(item.tail_end_char_index)
    };
    LiveTailScrollState {
        visible_end_char_index: visible,
        target_end_char_index: item.tail_end_char_index,
        window_chars: DEFAULT_WINDOW_CHARS,
        last_advanced_at: now,
        reached_end_at: if item.finished_at is Some && !double::below(
            visible,
            index(item.tail_end_char_index),
        ) {
            Some(now)
        } else {
            None
        },
    }
}

/// The state once more of the answer came in.
pub open spec fn synced(
    s: LiveTailScrollState,
    item: &LiveRequestSnapshot,
    settings: LiveOutputSettings,
    now: u128,
) -> LiveTailScrollState {
    let later = advanced(s, settings, now);
    with_reached(
        LiveTailScrollState {
            visible_end_char_index: placed(
                later.visible_end_char_index,
                item,
                s.window_chars,
                settings.scroll_limit_enabled,
            ),
            target_end_char_index: item.tail_end_char_index,
            ..later
        },
        item.finished_at is Some,
        now,
    )
}

/// Whether a finished request was shown to its end for long enough.
pub open spec fn hold_is_over(s: LiveTailScrollState, now: u128, hold_seconds: u32) -> bool {
    s.reached_end_at matches Some(at) && nanos_between(at, now) >= hold_seconds * 1_000_000_000
}

fn elapsed(from: u128, to: u128) -> (r: Double)
    requires
        clock::is_instant(to),
    ensures
        r == seconds(nanos_between(from, to)),
        r.wf(),
{
    let nanos: u128 = if to > from {
        to - from
    } else {
        0
    };
    let whole: Double = Double::from_u64((nanos / 1_000_000_000) as u64);
    let rest: Double = Double::from_u64((nanos % 1_000_000_000) as u64);
    whole.plus(rest.over(1_000_000_000))
}

fn place(visible: Double, item: &LiveRequestSnapshot, window: usize, limited: bool) -> (r: Double)
    requires
        visible.wf(),
    ensures
        r == placed(visible, item, window, limited),
        r.wf(),
{
    if !limited {
        return index_value(item.tail_end_char_index);
    }
    let end: usize = if window > usize::MAX - item.tail_start_char_index
        || item.tail_start_char_index + window > item.tail_end_char_index {
        item.tail_end_char_index
    } else {
        item.tail_start_char_index + window
    };
    visible.larger(index_value(end)).smaller(index_value(item.tail_end_char_index))
}

impl LiveTailScrollState {
    /// The place is a valid number.
    pub open spec fn wf(self) -> bool {
        self.visible_end_char_index.wf()
    }

    /// The state of a request that is new.
    pub fn new(item: &LiveRequestSnapshot, settings: LiveOutputSettings, now: u128) -> (r: Self)
        ensures
            r == fresh(item, settings, now),
            r.wf(),
    {
        let end: Double = index_value(item.tail_end_char_index);
        let more: bool = item.tail_end_char_index >= item.tail_start_char_index
            && item.tail_end_char_index - item.tail_start_char_index > DEFAULT_WINDOW_CHARS;
        let visible: Double = if settings.scroll_limit_enabled && more {
            index_value(item.tail_start_char_index + DEFAULT_WINDOW_CHARS)
        } else {
            end
        };
        let at_end: bool = !visible.is_below(end);
        LiveTailScrollState {
            visible_end_char_index: visible,
            target_end_char_index: item.tail_end_char_index,
            window_chars: DEFAULT_WINDOW_CHARS,
            last_advanced_at: now,
            reached_end_at: if item.finished_at.is_some() && at_end {
                Some(now)
            } else {
                None
            },
        }
    }

    /// Takes in more of the answer.
    pub fn sync(&mut self, item: &LiveRequestSnapshot, settings: LiveOutputSettings, now: u128)
        requires
            old(self).wf(),
            clock::is_instant(now),
        ensures
            *final(self) == synced(*old(self), item, settings, now),
            final(self).wf(),
    {
        self.advance(settings, now);
        self.target_end_char_index = item.tail_end_char_index;
        self.visible_end_char_index =
        place(
            self.visible_end_char_index,
            item,
            self.window_chars,
            settings.scroll_limit_enabled,
        );
        self.update_reached_end(item.finished_at.is_some(), now);
    }

    /// Lets time go on.
    pub fn advance(&mut self, settings: LiveOutputSettings, now: u128)
        requires
            old(self).wf(),
            clock::is_instant(now),
        ensures
            *final(self) == advanced(*old(self), settings, now),
            final(self).wf(),
    {
        let passed: Double = elapsed(self.last_advanced_at, now);
        self.last_advanced_at = now;
        let end: Double = index_value(self.target_end_char_index);
        if settings.scroll_limit_enabled {
            let speed: Double = Double::from_u64(settings.max_scroll_chars_per_second as u64);
            self.visible_end_char_index =
            self.visible_end_char_index.plus(passed.times(speed)).smaller(end);
        } else {
            self.visible_end_char_index = end;
        }
    }

    /// Takes in how wide the window is: at least eight characters.
    pub fn set_window_chars(
        &mut self,
        item: &LiveRequestSnapshot,
        max_chars: usize,
        settings: LiveOutputSettings,
        now: u128,
    )
        requires
            old(self).wf(),
        ensures
            ({
                let window: usize = if max_chars < 8 {
                    8
                } else {
                    max_chars
                };
                *final(self) == with_reached(
                    LiveTailScrollState {
                        window_chars: window,
                        visible_end_char_index: placed(
                            old(self).visible_end_char_index,
                            item,
                            window,
                            settings.scroll_limit_enabled,
                        ),
                        ..*old(self)
                    },
                    item.finished_at is Some,
                    now,
                )
            }),
            final(self).wf(),
    {
        self.window_chars =
        if max_chars < 8 {
            8
        } else {
            max_chars
        };
        self.visible_end_char_index =
        place(
            self.visible_end_char_index,
            item,
            self.window_chars,
            settings.scroll_limit_enabled,
        );
        self.update_reached_end(item.finished_at.is_some(), now);
    }

    /// Takes in whether the request has ended.
    pub fn update_reached_end(&mut self, finished: bool, now: u128)
        requires
            old(self).wf(),
        ensures
            *final(self) == with_reached(*old(self), finished, now),
            final(self).wf(),
    {
        if finished && !self.needs_scroll() {
            if self.reached_end_at.is_none() {
                self.reached_end_at = Some(now);
            }
        } else {
            self.reached_end_at = None;
        }
    }

    /// How far the text has scrolled.
    pub fn visible_end_char_index(&self) -> (r: Double)
        ensures
            r == self.visible_end_char_index,
    {
        self.visible_end_char_index
    }

    /// Whether the text still has to scroll.
    pub fn needs_scroll(&self) -> (r: bool)
        requires
            self.wf(),
        ensures
            r == lags(*self),
    {
        self.visible_end_char_index.is_below(index_value(self.target_end_char_index))
    }

    /// Whether a finished request was shown to its end for long enough.
    pub fn hold_finished(&self, now: u128, hold_seconds: u32) -> (r: bool)
        ensures
            r == hold_is_over(*self, now, hold_seconds),
    {
        match self.reached_end_at {
            Some(at) => {
                let passed: u128 = if now > at {
                    now - at
                } else {
                    0
                };
                passed >= hold_seconds as u128 * 1_000_000_000
            },
            None => false,
        }
    }
}

/// A text never scrolls beyond its end.
pub proof fn law_never_beyond_the_end(
    s: LiveTailScrollState,
    item: &LiveRequestSnapshot,
    settings: LiveOutputSettings,
    now: u128,
)
    ensures
        !double::below(
            index(s.target_end_char_index),
            advanced(s, settings, now).visible_end_char_index,
        ),
        !double::below(
            index(item.tail_end_char_index),
            synced(s, item, settings, now).visible_end_char_index,
        ),
{
}

/// A text that is not limited is at its end at once.
pub proof fn law_unlimited_text_is_at_its_end(
    s: LiveTailScrollState,
    item: &LiveRequestSnapshot,
    settings: LiveOutputSettings,
    now: u128,
)
    requires
        !settings.scroll_limit_enabled,
    ensures
        !lags(advanced(s, settings, now)),
        !lags(synced(s, item, settings, now)),
        !lags(fresh(item, settings, now)),
{
}

/// A request that runs is not on its way out, and one that scrolls is not
/// either.
pub proof fn law_hold_starts_at_the_end(
    s: LiveTailScrollState,
    item: &LiveRequestSnapshot,
    settings: LiveOutputSettings,
    now: u128,
)
    ensures
        ({
            let after = synced(s, item, settings, now);
            after.reached_end_at is Some ==> item.finished_at is Some && !lags(after)
        }),
{
}

/// Without time passing a limited text that is not beyond its end stays where
/// it is; a whole number of seconds moves it on by that many times the allowed
/// characters, and no further than its end.
pub proof fn law_limited_text_scrolls_at_the_allowed_speed(
    s: LiveTailScrollState,
    settings: LiveOutputSettings,
    place: nat,
    elapsed: nat,
    now: u128,
)
    requires
        settings.scroll_limit_enabled,
        s.visible_end_char_index == double::of_int(place as int),
        now == s.last_advanced_at + elapsed * 1_000_000_000,
        s.target_end_char_index <= 0x10_0000_0000_0000,
        place <= s.target_end_char_index,
        elapsed * settings.max_scroll_chars_per_second <= 0x10_0000_0000_0000,
        elapsed <= 0x10_0000_0000_0000,
    ensures
        ({
            let moved = place + elapsed * settings.max_scroll_chars_per_second;
            let after = advanced(s, settings, now);
            &&& after.visible_end_char_index == double::of_int(
                if moved <= s.target_end_char_index {
                    moved as int
                } else {
                    s.target_end_char_index as int
                },
            )
            &&& after.last_advanced_at == now
            &&& after.target_end_char_index == s.target_end_char_index
            &&& lags(after) <==> moved < s.target_end_char_index
        }),
{
    let speed = settings.max_scroll_chars_per_second as int;
    let step = elapsed * settings.max_scroll_chars_per_second;
    let moved = place + step;
    let end = s.target_end_char_index as int;
    let nanos = nanos_between(s.last_advanced_at, now);
    assert(nanos == elapsed * 1_000_000_000);
    assert(nanos / 1_000_000_000 == elapsed && nanos % 1_000_000_000 == 0);
    double::law_division_undoes_multiplication(0, 1_000_000_000);
    assert(0int * 1_000_000_000 == 0);
    double::law_whole_numbers_are_exact(elapsed as int, 0);
    double::law_whole_numbers_are_exact(elapsed as int, speed);
    double::law_whole_numbers_are_exact(place as int, step as int);
    double::law_whole_numbers_are_exact(moved as int, end);
    double::law_whole_numbers_are_exact(end, end);
}

/// A request is held from the moment at which it had ended and its text stood
/// at its end; that moment stays, and is lost once the text scrolls again.
pub proof fn law_moment_of_the_end_is_kept(
    s: LiveTailScrollState,
    finished: bool,
    now: u128,
    later: u128,
)
    ensures
        ({
            let after = with_reached(s, finished, now);
            &&& after.reached_end_at is Some <==> finished && !lags(s)
            &&& finished && !lags(s) && s.reached_end_at is None ==> after.reached_end_at == Some(
                now,
            )
            &&& finished && !lags(s) && s.reached_end_at is Some ==> after.reached_end_at
                == s.reached_end_at
            &&& with_reached(after, finished, later) == after
        }),
{
}

/// A held request is let go once the seconds are over, and not before.
pub proof fn law_hold_lasts_its_seconds(s: LiveTailScrollState, at: u128, now: u128, seconds: u32)
    requires
        s.reached_end_at == Some(at),
        at <= now,
    ensures
        hold_is_over(s, now, seconds) <==> now - at >= seconds * 1_000_000_000,
{
}

/// A limited text that is taken in shows at least a full window, and never more
/// than there is; one that is not limited shows all. A text that is shorter
/// than the window is shown whole.
pub proof fn law_taken_in_text_fills_the_window(
    place: nat,
    item: &LiveRequestSnapshot,
    window: usize,
)
    requires
        place <= 0x10_0000_0000_0000,
        item.tail_start_char_index <= item.tail_end_char_index <= 0x10_0000_0000_0000,
        window <= 0x1_0000_0000,
    ensures
        placed(double::of_int(place as int), item, window, false) == double::of_int(
            item.tail_end_char_index as int,
        ),
        ({
            let low = item.tail_start_char_index + window;
            let end = item.tail_end_char_index as int;
            let r = placed(double::of_int(place as int), item, window, true);
            &&& low >= end ==> r == double::of_int(end)
            &&& low <= place <= end ==> r == double::of_int(place as int)
            &&& place <= low <= end ==> r == double::of_int(low)
            &&& place >= end ==> r == double::of_int(end)
        }),
{
    let end = item.tail_end_char_index as int;
    let full = full_window_end(item, window);
    double::law_whole_numbers_are_exact(place as int, full);
    double::law_whole_numbers_are_exact(place as int, end);
    double::law_whole_numbers_are_exact(full, end);
}

} // verus!
