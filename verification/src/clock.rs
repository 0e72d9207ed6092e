//! The calendar, the present time and fresh identifiers.

use crate::number;
use crate::text;
use vstd::prelude::*;

verus! {

/// A point in time: seconds since 1970-01-01 UTC and nanoseconds.
#[derive(Debug, Clone, Copy, PartialEq, Eq, Structural)]
pub struct Timestamp {
    pub seconds: i64,
    pub nanos: u32,
}

impl Timestamp {
    /// Whether one point in time comes after another.
    pub open spec fn is_after(self, other: Self) -> bool {
        self.seconds > other.seconds || (self.seconds == other.seconds && self.nanos > other.nanos)
    }

    /// Whether this point in time comes after another.
    pub fn after(self, other: Self) -> (r: bool)
        ensures
            r == self.is_after(other),
    {
        self.seconds > other.seconds || (self.seconds == other.seconds && self.nanos > other.nanos)
    }
}

/// Nanoseconds in a second.
pub const NANOS_PER_SECOND: u128 = 1_000_000_000;

/// Whether a number of nanoseconds is a reading of the monotonic clock, whose
/// seconds fit in a signed 64-bit number.
pub open spec fn is_instant(t: u128) -> bool {
    t < 9_223_372_036_854_775_808_000_000_000
}

/// The whole seconds from one instant to another; none where the second does
/// not come later.
pub open spec fn seconds_between(from: u128, to: u128) -> int {
    if to > from {
        (to - from) / 1_000_000_000
    } else {
        0
    }
}

/// The whole seconds from one instant to another.
pub fn whole_seconds(from: u128, to: u128) -> (r: i64)
    requires
        is_instant(from),
        is_instant(to),
    ensures
        r == seconds_between(from, to),
        r >= 0,
{
    if to > from {
        ((to - from) / 1_000_000_000) as i64
    } else {
        0
    }
}

/// Whether the calendar shows a point in time in every time zone.
pub open spec fn in_calendar(seconds: i64) -> bool {
    -8_334_601_000_000 <= seconds <= 8_210_266_700_000
}

/// Whether the calendar shows a point in time in no time zone.
pub open spec fn beyond_calendar(seconds: i64) -> bool {
    seconds < -8_334_601_500_000 || seconds > 8_210_267_000_000
}

/// Whether the system clock may show a point in time: it is one since 1970 that
/// the calendar may show.
pub open spec fn is_now(t: Timestamp) -> bool {
    t.nanos < 1_000_000_000 && t.seconds >= 0 && !beyond_calendar(t.seconds)
}

/// `chrono::Utc::now`: the system clock. The nanoseconds are those within the
/// second, and the second is one since 1970 that the calendar may show, for the
/// call does not return at another. Of its value nothing more is claimed.
#[verifier::external_body]
pub(crate) fn utc_now() -> (r: Timestamp)
    ensures
        is_now(r),
{
    let now = chrono::Utc::now();
    Timestamp { seconds: now.timestamp(), nanos: now.timestamp_subsec_nanos() }
}

/// `uuid::Uuid::new_v4`, in its hyphenated form of thirty-six characters, which
/// are digits, letters of the Latin alphabet and hyphens. The value is random:
/// nothing more is claimed of it.
#[verifier::external_body]
pub(crate) fn new_uuid() -> (r: String)
    ensures
        r@.len() == 36,
        text::is_ascii_text(r@),
{
    uuid::Uuid::new_v4().to_string()
}

/// A date and a time of day, in some time zone.
#[derive(Debug, Clone, Copy, PartialEq, Eq, Structural)]
pub struct CivilTime {
    pub year: i32,
    pub month: u32,
    pub day: u32,
    pub hour: u32,
    pub minute: u32,
    pub second: u32,
}

impl CivilTime {
    /// The calendar has such a day, and the clock such a time of day.
    pub open spec fn wf(self) -> bool {
        &&& 1 <= self.month <= 12
        &&& 1 <= self.day <= days_in_month(self.year as int, self.month as int)
        &&& self.hour < 24
        &&& self.minute < 60
        &&& self.second < 60
    }
}

/// Whether February has a twenty-ninth day in a year.
pub open spec fn is_leap_year(year: int) -> bool {
    year % 4 == 0 && (year % 100 != 0 || year % 400 == 0)
}

/// How many days a month has.
pub open spec fn days_in_month(year: int, month: int) -> int {
    if month == 2 {
        if is_leap_year(year) {
            29
        } else {
            28
        }
    } else if month == 4 || month == 6 || month == 9 || month == 11 {
        30
    } else {
        31
    }
}

/// How many days of a year come before a month.
pub open spec fn days_before_month(year: int, month: int) -> int
    decreases month,
{
    if month <= 1 {
        0
    } else {
        days_before_month(year, month - 1) + days_in_month(year, month - 1)
    }
}

/// How many days come before a year, from 1970 on. Every fourth year has a day
/// more, but for those of the hundreds that four hundred does not divide.
pub open spec fn days_before_year(year: int) -> int {
    365 * (year - 1970) + ((year - 1) / 4 - 1969int / 4) - ((year - 1) / 100 - 1969int / 100) + ((
    year - 1) / 400 - 1969int / 400)
}

/// How many days come before a day, from 1970-01-01 on.
pub open spec fn day_number(year: int, month: int, day: int) -> int {
    days_before_year(year) + days_before_month(year, month) + day - 1
}

/// How many seconds come before a date and a time of day, from 1970-01-01 on.
pub open spec fn civil_seconds(t: CivilTime) -> int {
    day_number(t.year as int, t.month as int, t.day as int) * 86_400 + t.hour * 3_600 + t.minute
        * 60 + t.second
}

/// Whether some time zone may show a date and a time of day at a point in time:
/// it is less than a day ahead of UTC or behind it.
pub open spec fn shown_at(t: CivilTime, seconds: i64) -> bool {
    -86_400 < civil_seconds(t) - seconds < 86_400
}

/// Whether a point in time, where there is one, is a whole second at which some
/// time zone may show a date and a time of day, and these exist.
pub open spec fn may_be_at(t: CivilTime, at: Option<Timestamp>) -> bool {
    at matches Some(at) ==> t.wf() && at.nanos == 0 && shown_at(t, at.seconds)
}

/// Whether some time zone may show a date and a time of day at some moment that
/// the system clock may show.
pub open spec fn is_local_now(t: CivilTime) -> bool {
    t.wf() && exists|now: Timestamp| is_now(now) && #[trigger] shown_at(t, now.seconds)
}

proof fn lemma_next_year(year: int)
    ensures
        days_before_year(year + 1) == days_before_year(year) + if is_leap_year(year) {
            366int
        } else {
            365int
        },
{
}

proof fn lemma_years_in_order(a: int, b: int)
    requires
        a <= b,
    ensures
        days_before_year(a) + 365 * (b - a) <= days_before_year(b),
    decreases b - a,
{
    if a < b {
        lemma_years_in_order(a, b - 1);
        lemma_next_year(b - 1);
    }
}

proof fn lemma_months_in_order(year: int, a: int, b: int)
    requires
        1 <= a < b,
    ensures
        days_before_month(year, a) + days_in_month(year, a) <= days_before_month(year, b),
    decreases b - a,
{
    if a < b - 1 {
        lemma_months_in_order(year, a, b - 1);
    }
}

proof fn lemma_day_of_year(year: int, month: int, day: int)
    requires
        1 <= month <= 12,
        1 <= day <= days_in_month(year, month),
    ensures
        0 <= days_before_month(year, month) + day - 1 < if is_leap_year(year) {
            366int
        } else {
            365int
        },
{
    reveal_with_fuel(days_before_month, 13);
}

/// The days of the calendar are numbered in their order: a later one has a
/// greater number.
pub proof fn law_days_are_in_order(a: CivilTime, b: CivilTime)
    requires
        a.wf(),
        b.wf(),
        a.year < b.year || (a.year == b.year && (a.month < b.month || (a.month == b.month && a.day
            < b.day))),
    ensures
        day_number(a.year as int, a.month as int, a.day as int) < day_number(
            b.year as int,
            b.month as int,
            b.day as int,
        ),
{
    if a.year < b.year {
        lemma_day_of_year(a.year as int, a.month as int, a.day as int);
        lemma_day_of_year(b.year as int, b.month as int, b.day as int);
        lemma_next_year(a.year as int);
        lemma_years_in_order(a.year + 1, b.year as int);
    } else if a.month < b.month {
        lemma_months_in_order(a.year as int, a.month as int, b.month as int);
    }
}

/// No two dates and times of day stand for the same second.
pub proof fn law_one_date_for_a_second(a: CivilTime, b: CivilTime)
    requires
        a.wf(),
        b.wf(),
        civil_seconds(a) == civil_seconds(b),
    ensures
        a == b,
{
    let x = day_number(a.year as int, a.month as int, a.day as int);
    let y = day_number(b.year as int, b.month as int, b.day as int);
    assert(x == y);
    if a.year < b.year || (a.year == b.year && (a.month < b.month || (a.month == b.month && a.day
        < b.day))) {
        law_days_are_in_order(a, b);
    } else if (a.year, a.month, a.day) != (b.year, b.month, b.day) {
        law_days_are_in_order(b, a);
    }
}

/// A year of at least four digits, with a sign where it has more or is
/// negative.
pub open spec fn year_text(year: int) -> Seq<char> {
    if 0 <= year <= 9999 {
        number::padded_text(year as nat, 4)
    } else if year < 0 {
        "-"@ + number::padded_text((-year) as nat, 4)
    } else {
        "+"@ + number::nat_text(year as nat)
    }
}

/// A year of at least four digits.
pub fn format_year(year: i32) -> (r: String)
    ensures
        r@ == year_text(year as int),
{
    if 0 <= year && year <= 9999 {
        number::padded(year as u64, 4)
    } else if year < 0 {
        text::concat("-", number::padded((-(year as i64)) as u64, 4).as_str())
    } else {
        text::concat("+", number::u64_text(year as u64).as_str())
    }
}

/// The part of a second: as many thousandths, millionths or billionths as are
/// needed, and nothing at a whole second.
pub open spec fn fraction_text(nanos: u32) -> Seq<char> {
    if nanos == 0 {
        Seq::empty()
    } else if nanos % 1_000_000 == 0 {
        "."@ + number::padded_text((nanos / 1_000_000) as nat, 3)
    } else if nanos % 1_000 == 0 {
        "."@ + number::padded_text((nanos / 1_000) as nat, 6)
    } else {
        "."@ + number::padded_text(nanos as nat, 9)
    }
}

/// How far a time zone is ahead of UTC, in hours and minutes, rounded to the
/// nearest minute.
pub open spec fn offset_text(offset: int) -> Seq<char> {
    let size = if offset < 0 {
        -offset
    } else {
        offset
    };
    let minutes = ((size + 30) / 60) as nat;
    (if offset < 0 {
        "-"@
    } else {
        "+"@
    }) + number::padded_text(minutes / 60, 2) + ":"@ + number::padded_text(minutes % 60, 2)
}

/// A date, a time of day and the offset of a time zone.
pub open spec fn zoned_text(t: CivilTime, nanos: u32, offset: int) -> Seq<char> {
    year_text(t.year as int) + "-"@ + number::padded_text(t.month as nat, 2) + "-"@
        + number::padded_text(t.day as nat, 2) + "T"@ + number::padded_text(t.hour as nat, 2) + ":"@
        + number::padded_text(t.minute as nat, 2) + ":"@ + number::padded_text(t.second as nat, 2)
        + fraction_text(nanos) + offset_text(offset)
}

/// Whether a text writes a point in time as a zone shows it that is so many
/// seconds ahead of UTC.
pub open spec fn is_rfc3339(s: Seq<char>, at: Timestamp, offset: int) -> bool {
    exists|t: CivilTime|
        t.wf() && civil_seconds(t) == at.seconds + offset && s == #[trigger] zoned_text(
            t,
            at.nanos,
            offset,
        )
}

/// Whether a text writes a point in time as some time zone shows it.
pub open spec fn is_local_rfc3339(s: Seq<char>, at: Timestamp) -> bool {
    exists|offset: int| -86_400 < offset < 86_400 && #[trigger] is_rfc3339(s, at, offset)
}

/// `chrono::Local::now`: the present date and time in the machine's time zone,
/// a zone less than a day ahead of UTC or behind it. The calendar has that day;
/// which one it is depends on the clock and on the zone, and nothing is claimed
/// of it.
#[verifier::external_body]
pub(crate) fn local_now() -> (r: CivilTime)
    ensures
        is_local_now(r),
{
    let t = chrono::Local::now().naive_local();
    let (year, month, day) = (chrono::Datelike::year(&t), chrono::Datelike::month(&t), chrono::Datelike::day(&t));
    let (hour, minute) = (chrono::Timelike::hour(&t), chrono::Timelike::minute(&t));
    CivilTime { year, month, day, hour, minute, second: chrono::Timelike::second(&t) }
}

/// `chrono::TimeZone::with_ymd_and_hms` for `chrono::Local`: the point in time
/// at which the machine's time zone shows the given date and time, where there
/// is exactly one. There is none of a day or a time of day that the calendar
/// or the clock has not. It is a whole second, less than a day before or after
/// the same date and time in UTC, for a zone's offset is; which one depends on
/// the machine's time zone, and nothing more is claimed of it.
#[verifier::external_body]
pub(crate) fn local_to_utc(t: CivilTime) -> (r: Option<Timestamp>)
    ensures
        may_be_at(t, r),
{
    chrono::TimeZone::with_ymd_and_hms(
        &chrono::Local,
        t.year,
        t.month,
        t.day,
        t.hour,
        t.minute,
        t.second,
    ).single().map(
        |at| Timestamp { seconds: at.timestamp(), nanos: at.timestamp_subsec_nanos() },
    )
}

/// `chrono::DateTime::to_rfc3339` in UTC: the date and the time of day at a
/// point in time, with the part of a second, and an offset of nothing.
#[verifier::external_body]
pub(crate) fn utc_rfc3339(at: Timestamp) -> (r: String)
    requires
        in_calendar(at.seconds),
        at.nanos < 1_000_000_000,
    ensures
        is_rfc3339(r@, at, 0),
{
    chrono::DateTime::from_timestamp(at.seconds, at.nanos).unwrap_or_default().to_rfc3339()
}

/// `chrono::DateTime::to_rfc3339` in `chrono::Local`: the date and the time of
/// day that the machine's time zone shows at a point in time, with the part of a
/// second and the zone's offset. The offset is less than a day; which one it is
/// depends on the machine's time zone, and nothing is claimed of it.
#[verifier::external_body]
pub(crate) fn local_rfc3339(at: Timestamp) -> (r: String)
    requires
        in_calendar(at.seconds),
        at.nanos < 1_000_000_000,
    ensures
        is_local_rfc3339(r@, at),
{
    let t = chrono::DateTime::from_timestamp(at.seconds, at.nanos).unwrap_or_default();
    t.with_timezone(&chrono::Local).to_rfc3339()
}

/// `chrono::DateTime::with_timezone` to `chrono::Local`: the date and time that
/// the machine's time zone shows at a point in time, a zone less than a day
/// ahead of UTC or behind it. The calendar has that day; which one it is depends
/// on the machine's time zone, and nothing more is claimed of it. The point in
/// time is one that the calendar reaches.
#[verifier::external_body]
pub(crate) fn utc_to_local(at: Timestamp) -> (r: CivilTime)
    requires
        in_calendar(at.seconds),
        at.nanos < 1_000_000_000,
    ensures
        r.wf(),
        shown_at(r, at.seconds),
{
    let t = chrono::DateTime::from_timestamp(at.seconds, at.nanos).unwrap_or_default();
    let t = t.with_timezone(&chrono::Local).naive_local();
    let (year, month, day) = (chrono::Datelike::year(&t), chrono::Datelike::month(&t), chrono::Datelike::day(&t));
    let (hour, minute) = (chrono::Timelike::hour(&t), chrono::Timelike::minute(&t));
    CivilTime { year, month, day, hour, minute, second: chrono::Timelike::second(&t) }
}

/// The twelve months of a year have all of its days.
proof fn lemma_months_of_a_year(year: int)
    ensures
        days_before_month(year, 12) == if is_leap_year(year) {
            335int
        } else {
            334int
        },
{
    reveal_with_fuel(days_before_month, 13);
}

/// A year has a day more exactly where February has, and the months of a year
/// have all of its days.
pub proof fn law_years_hold_their_months(year: int)
    ensures
        days_before_year(year + 1) - days_before_year(year) == if is_leap_year(year) {
            366int
        } else {
            365
        },
        days_before_month(year, 12) + 31 == days_before_year(year + 1) - days_before_year(year),
        days_before_year(1970) == 0,
{
    lemma_next_year(year);
    lemma_months_of_a_year(year);
}

/// The whole seconds between two instants have passed and the next has not; none
/// pass backwards.
pub proof fn law_whole_seconds_have_passed(from: u128, to: u128)
    ensures
        from <= to ==> seconds_between(from, to) * 1_000_000_000 <= to - from < (seconds_between(
            from,
            to,
        ) + 1) * 1_000_000_000,
        to <= from ==> seconds_between(from, to) == 0,
{
}

} // verus!
