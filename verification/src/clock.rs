//! Instants and calendar days. Reading and writing them is chrono's work; what
//! follows from what it read is decided here.

use vstd::prelude::*;

use crate::error::{ApiError, BAD_REQUEST};
use crate::text::owned;

verus! {

/// A UTC instant that chrono can represent: whole seconds since 1970 and the
/// nanoseconds within that second, which reach past one second only while a leap
/// second lasts.
#[derive(Clone, Copy, Debug, PartialEq, Eq)]
pub struct Instant {
    secs: i64,
    nanos: u32,
}

/// Whether chrono's calendar reaches the instant.
pub open spec fn representable(secs: i64, nanos: u32) -> bool {
    &&& -8_334_601_228_800 <= secs <= 8_210_266_876_799
    &&& nanos < 1_000_000_000 || (nanos < 2_000_000_000 && secs % 60 == 59)
}

impl View for Instant {
    type V = (i64, u32);

    closed spec fn view(&self) -> (i64, u32) {
        (self.secs, self.nanos)
    }
}

impl Instant {
    #[verifier::type_invariant]
    spec fn in_range(self) -> bool {
        representable(self.secs, self.nanos)
    }

    /// The instant with these parts, when chrono's calendar reaches it.
    pub fn new(secs: i64, nanos: u32) -> (r: Option<Instant>)
        ensures
            r is Some <==> representable(secs, nanos),
            r matches Some(i) ==> i@ == (secs, nanos),
    {
        let in_minute: i64 = if secs >= 0 {
            secs % 60
        } else if secs > i64::MIN {
            let back: i64 = (-secs) % 60;
            if back == 0 {
                0
            } else {
                60 - back
            }
        } else {
            0
        };
        if secs < -8_334_601_228_800 || secs > 8_210_266_876_799 {
            return None;
        }
        if nanos < 1_000_000_000 || (nanos < 2_000_000_000 && in_minute == 59) {
            Some(Instant { secs, nanos })
        } else {
            None
        }
    }

    /// Whole seconds since 1970.
    pub fn seconds(&self) -> (r: i64)
        ensures
            r == self@.0,
    {
        self.secs
    }

    /// Nanoseconds within the second.
    pub fn subsec_nanos(&self) -> (r: u32)
        ensures
            r == self@.1,
    {
        self.nanos
    }
}

/// What chrono reads out of an RFC 3339 text: the instant, or why it could not.
pub uninterp spec fn rfc3339_reading(s: Seq<char>) -> Result<(i64, u32), Seq<char>>;

/// A reading with the instant and the reason taken by their views.
pub open spec fn reading_view(r: Result<Instant, String>) -> Result<(i64, u32), Seq<char>> {
    match r {
        Ok(i) => Ok(i@),
        Err(m) => Err(m@),
    }
}

/// `chrono::DateTime::parse_from_rfc3339`, with the result as a UTC instant and
/// the error as its displayed text. The result depends on the text alone, and an
/// instant that was read is one chrono can represent.
#[verifier::external_body]
pub(crate) fn read_rfc3339(s: &str) -> (r: Result<Instant, String>)
    ensures
        reading_view(r) == rfc3339_reading(s@),
{
    match chrono::DateTime::parse_from_rfc3339(s) {
        Ok(d) => Ok(Instant { secs: d.timestamp(), nanos: d.timestamp_subsec_nanos() }),
        Err(e) => Err(e.to_string()),
    }
}

/// The refusal of an unreadable `since`.
pub open spec fn since_message(reason: Seq<char>) -> Seq<char> {
    "invalid 'since': "@ + reason
}

/// What a `since` parameter that was present asks for, given its reading: an
/// unreadable one is the client's mistake.
pub fn since_of(reading: Result<Instant, String>) -> (r: Result<Instant, ApiError>)
    ensures
        match (r, reading) {
            (Ok(i), Ok(read)) => i@ == read@,
            (Err(e), Err(reason)) => e@ == (400u16, since_message(reason@)),
            _ => false,
        },
{
    match reading {
        Ok(i) => Ok(i),
        Err(reason) => {
            let mut m = owned("invalid 'since': ");
            m.append(reason.as_str());
            Err(ApiError::new(BAD_REQUEST, m))
        },
    }
}

/// Parses an optional RFC 3339 `since` parameter. A malformed value is a 400.
pub fn parse_since(since: Option<&str>) -> (r: Result<Option<Instant>, ApiError>)
    ensures
        match since {
            None => r == Ok::<Option<Instant>, ApiError>(None),
            Some(s) => match rfc3339_reading(s@) {
                Ok(parts) => r matches Ok(Some(i)) && i@ == parts,
                Err(reason) => r matches Err(e) && e@ == (400u16, since_message(reason)),
            },
        },
{
    match since {
        None => Ok(None),
        Some(s) => match since_of(read_rfc3339(s)) {
            Ok(i) => Ok(Some(i)),
            Err(e) => Err(e),
        },
    }
}

/// The RFC 3339 text chrono writes for an instant.
pub uninterp spec fn rfc3339_text(secs: i64, nanos: u32) -> Seq<char>;

/// `chrono::DateTime::to_rfc3339` on a UTC instant; the text depends on the
/// instant alone.
#[verifier::external_body]
pub(crate) fn write_rfc3339(i: Instant) -> (r: String)
    ensures
        r@ == rfc3339_text(i@.0, i@.1),
{
    chrono::DateTime::from_timestamp(i.secs, i.nanos).unwrap().to_rfc3339()
}

/// The compact stamp `YYYYMMDDTHHMMSSmmmZ` of an instant.
pub uninterp spec fn compact_text(secs: i64, nanos: u32) -> Seq<char>;

/// chrono's `format` with `%Y%m%dT%H%M%S%3fZ` on a UTC instant; the text
/// depends on the instant alone.
#[verifier::external_body]
pub(crate) fn write_compact(i: Instant) -> (r: String)
    ensures
        r@ == compact_text(i@.0, i@.1),
{
    let at = chrono::DateTime::from_timestamp(i.secs, i.nanos).unwrap();
    at.format("%Y%m%dT%H%M%S%3fZ").to_string()
}

/// Nanoseconds since 1970, leap seconds aside.
pub open spec fn total_nanos(parts: (i64, u32)) -> int {
    parts.0 * 1_000_000_000 + parts.1
}

/// `n / d` rounded toward zero.
pub open spec fn toward_zero(n: int, d: int) -> int {
    if n >= 0 {
        n / d
    } else {
        -((-n) / d)
    }
}

/// What chrono adds to the distance of two instants for a leap second: the earlier of
/// two different times of day is one second further off while it lies in one.
pub open spec fn leap_between(now: (i64, u32), then_at: (i64, u32)) -> int {
    if now.0 as int % 86_400 > then_at.0 as int % 86_400 && then_at.1 >= 1_000_000_000 {
        1
    } else if (now.0 as int % 86_400) < then_at.0 as int % 86_400 && now.1 >= 1_000_000_000 {
        -1
    } else {
        0
    }
}

/// The whole seconds from one instant to another, rounded toward zero.
pub open spec fn seconds_since(now: (i64, u32), then_at: (i64, u32)) -> int {
    toward_zero(
        total_nanos(now) - total_nanos(then_at) + leap_between(now, then_at) * 1_000_000_000,
        1_000_000_000,
    )
}

/// chrono's difference of two UTC instants, in whole seconds
/// (`TimeDelta::num_seconds`): their distance rounded toward zero, with the second that
/// a leap second adds to it.
#[verifier::external_body]
pub(crate) fn whole_seconds(now: Instant, then_at: Instant) -> (r: i64)
    ensures
        r == seconds_since(now@, then_at@),
{
    let a = chrono::DateTime::from_timestamp(now.secs, now.nanos).unwrap();
    let b = chrono::DateTime::from_timestamp(then_at.secs, then_at.nanos).unwrap();
    (a - b).num_seconds()
}

/// The age of an instant in seconds; one stamped in the future has age zero.
pub open spec fn age_of(now: (i64, u32), then_at: (i64, u32)) -> int {
    let s = seconds_since(now, then_at);
    if s < 0 {
        0
    } else {
        s
    }
}

/// How many whole seconds ago `then_at` was, and never less than zero.
pub fn age_seconds(now: Instant, then_at: Instant) -> (r: i64)
    ensures
        r == age_of(now@, then_at@),
        r >= 0,
        now@.1 < 1_000_000_000 && then_at@.1 < 1_000_000_000 && total_nanos(now@) >= total_nanos(
            then_at@,
        ) ==> r == (total_nanos(now@) - total_nanos(then_at@)) / 1_000_000_000,
        now@.1 < 1_000_000_000 && then_at@.1 < 1_000_000_000 && total_nanos(now@) < total_nanos(
            then_at@,
        ) ==> r == 0,
{
    let s = whole_seconds(now, then_at);
    if s < 0 {
        0
    } else {
        s
    }
}

/// The whole days between two instants, rounded toward zero.
pub open spec fn days_between(now: (i64, u32), then_at: (i64, u32)) -> int {
    toward_zero(seconds_since(now, then_at), 86_400)
}

/// How many whole days ago `then_at` was, rounded toward zero.
pub fn whole_days(now: Instant, then_at: Instant) -> (r: i64)
    ensures
        r == days_between(now@, then_at@),
{
    let s = whole_seconds(now, then_at);
    if s >= 0 {
        s / 86_400
    } else if s == i64::MIN {
        -106_751_991_167_300
    } else {
        -((-s) / 86_400)
    }
}

/// The instant a number of days before another, at the same time of day; nothing where
/// that leaves chrono's calendar.
pub fn days_before(at: Instant, days: i64) -> (r: Option<Instant>)
    ensures
        r is Some <==> -8_334_601_228_800 <= at@.0 - days * 86_400 <= 8_210_266_876_799,
        r matches Some(i) ==> i@.0 == at@.0 - days * 86_400 && i@.1 == at@.1,
{
    proof {
        use_type_invariant(&at);
    }
    match days.checked_mul(86_400) {
        Some(span) => match at.secs.checked_sub(span) {
            Some(secs) => {
                assert(secs % 60 == at.secs % 60);
                Instant::new(secs, at.nanos)
            },
            None => None,
        },
        None => None,
    }
}

/// The day number chrono reads out of a `YYYY-MM-DD` text.
pub uninterp spec fn ymd_day(s: Seq<char>) -> Option<i32>;

/// `chrono::NaiveDate::parse_from_str` with `%Y-%m-%d`, as the date's day number
/// in the proleptic Gregorian calendar; `None` where chrono refuses the text.
/// The result depends on the text alone.
#[verifier::external_body]
pub(crate) fn read_ymd(s: &str) -> (r: Option<i32>)
    ensures
        r == ymd_day(s@),
{
    let date = chrono::NaiveDate::parse_from_str(s, "%Y-%m-%d").ok()?;
    Some(chrono::Datelike::num_days_from_ce(&date))
}

/// The `YYYY-MM-DD` text of a day number, where chrono's calendar reaches it.
pub uninterp spec fn day_text(day: i32) -> Option<Seq<char>>;

/// The text chrono displays for the date with this day number
/// (`NaiveDate::from_num_days_from_ce_opt`); `None` outside its calendar. The
/// result depends on the number alone.
#[verifier::external_body]
pub(crate) fn write_day(day: i32) -> (r: Option<String>)
    ensures
        match r {
            Some(t) => day_text(day) == Some(t@),
            None => day_text(day) is None,
        },
{
    let date = chrono::NaiveDate::from_num_days_from_ce_opt(day)?;
    Some(date.to_string())
}

/// Without leap seconds an age is the whole seconds that went by, zero for what has
/// not come yet; it never shrinks as time goes on, and a day's worth of seconds is a
/// day.
pub proof fn law_an_age_is_the_whole_time_gone_by(now: (i64, u32), then_at: (i64, u32))
    requires
        now.1 < 1_000_000_000,
        then_at.1 < 1_000_000_000,
    ensures
        ({
            let gone = (now.0 - then_at.0) * 1_000_000_000 + (now.1 - then_at.1);
            &&& gone >= 0 ==> age_of(now, then_at) * 1_000_000_000 <= gone < (age_of(now, then_at)
                + 1) * 1_000_000_000
            &&& gone < 0 ==> age_of(now, then_at) == 0
            &&& gone >= 0 ==> days_between(now, then_at) * 86_400 <= age_of(now, then_at) < (
            days_between(now, then_at) + 1) * 86_400
        }),
{
    let gone = (now.0 - then_at.0) * 1_000_000_000 + (now.1 - then_at.1);
    assert(total_nanos(now) - total_nanos(then_at) == gone);
    assert(leap_between(now, then_at) == 0);
    assert(seconds_since(now, then_at) == toward_zero(gone, 1_000_000_000));
}

} // verus!
