//! The time stamp of the long listing: the year for old or future times, the
//! time of day otherwise, rendered in the local time zone.

use vstd::prelude::*;
use crate::text::{decimal, push_decimal, text_of};

verus! {

/// Six months of thirty days, in seconds.
pub const SIX_MONTHS: i64 = 15552000;

/// Month, space-padded day, two spaces, year.
pub const YEAR_PATTERN: &'static str = "%b %e  %Y";

/// Month, space-padded day, hours and minutes.
pub const CLOCK_PATTERN: &'static str = "%b %e %H:%M";

/// A time shows its year when it lies in the future or more than six months
/// back.
pub open spec fn shows_year(t: i64, now: i64) -> bool {
    t > now || now - t > SIX_MONTHS
}

pub fn show_year(t: i64, now: i64) -> (r: bool)
    ensures
        r == shows_year(t, now),
{
    t > now || (now as i128) - (t as i128) > SIX_MONTHS as i128
}

/// The strftime pattern for a time `t` seen at `now`.
pub fn stamp_pattern(t: i64, now: i64) -> (r: &'static str)
    ensures
        shows_year(t, now) ==> r@ == YEAR_PATTERN@,
        !shows_year(t, now) ==> r@ == CLOCK_PATTERN@,
{
    if show_year(t, now) { YEAR_PATTERN } else { CLOCK_PATTERN }
}

/// The first second that chrono's calendar holds (January 1, 262144 BCE,
/// chrono's year -262143).
pub const MIN_TS: i64 = -8334601228800;

/// The last second that chrono's calendar holds (December 31, 262142 CE).
pub const MAX_TS: i64 = 8210266876799;

/// A time in seconds that chrono can place in its calendar.
pub open spec fn in_calendar(t: int) -> bool {
    MIN_TS <= t <= MAX_TS
}

/// What chrono's `NaiveDateTime::format` renders for the wall-clock time
/// `local_secs` (seconds since the epoch, read as a naive date and time) with
/// the strftime `pattern`.
pub uninterp spec fn strftime_text(local_secs: i64, pattern: Seq<char>) -> Seq<char>;

/// The pattern chosen for time `t` seen at `now`.
pub open spec fn pattern_for(t: i64, now: i64) -> Seq<char> {
    if shows_year(t, now) { YEAR_PATTERN@ } else { CLOCK_PATTERN@ }
}

/// `t` as a signed decimal number.
pub open spec fn signed_decimal(t: i64) -> Seq<char> {
    if t < 0 { seq!['-'] + decimal((0 - t) as nat) } else { decimal(t as nat) }
}

/// The stamp of `t` seen at `now` at a local offset of `off` seconds from
/// UTC: the chosen pattern rendered at the local time, or the bare seconds
/// when the local time leaves the calendar.
pub open spec fn stamp_text_at(t: i64, now: i64, off: int) -> Seq<char> {
    if in_calendar(t + off) {
        strftime_text((t + off) as i64, pattern_for(t, now))
    } else {
        signed_decimal(t)
    }
}

/// The stamp of `t` seen at `now` when the local time zone is `off` seconds
/// ahead of UTC: the chosen pattern rendered at the local time, or the bare
/// seconds when the local time leaves the calendar.
pub open spec fn stamp_at(t: i64, now: i64, off: int, s: Seq<char>) -> bool {
    &&& -86400 < off < 86400
    &&& s == stamp_text_at(t, now, off)
}

/// What a stamp of `t` seen at `now` is: the bare seconds outside the
/// calendar; inside it, the stamp at some local offset of less than a day.
pub open spec fn stamp_ok(t: i64, now: i64, s: Seq<char>) -> bool {
    if in_calendar(t as int) {
        exists|off: int| #[trigger] stamp_at(t, now, off, s)
    } else {
        s == signed_decimal(t)
    }
}

/// Relies on chrono's `DateTime::from_timestamp` (`None` exactly outside
/// `MIN_TS..=MAX_TS`) and on the `Local` time zone's offset at that instant,
/// a `FixedOffset`, which is less than a day either way. (chrono panics
/// instead where the time-zone data holds an offset of a day or more.)
#[verifier::external_body]
fn local_offset(secs: i64) -> (r: Option<i32>)
    ensures
        r.is_some() == in_calendar(secs as int),
        r.is_some() ==> -86400 < r.unwrap() < 86400,
{
    match chrono::DateTime::from_timestamp(secs, 0) {
        Some(t) => Some(t.with_timezone(&chrono::Local).offset().local_minus_utc()),
        None => None,
    }
}

/// Relies on chrono's `DateTime::from_timestamp` and `NaiveDateTime::format`:
/// the wall-clock time `local_secs` rendered with the strftime `pattern`, a
/// function of the two alone.
#[verifier::external_body]
fn format_local(local_secs: i64, pattern: &str) -> (r: String)
    requires
        in_calendar(local_secs as int),
        pattern@ == YEAR_PATTERN@ || pattern@ == CLOCK_PATTERN@,
    ensures
        r@ == strftime_text(local_secs, pattern@),
{
    match chrono::DateTime::from_timestamp(local_secs, 0) {
        Some(t) => t.naive_utc().format(pattern).to_string(),
        None => String::new(),
    }
}

/// The seconds as a signed decimal number.
fn seconds_text(t: i64) -> (r: String)
    ensures
        r@ == signed_decimal(t),
{
    let mut v: Vec<char> = Vec::new();
    if t < 0 {
        v.push('-');
        push_decimal(&mut v, (0i128 - t as i128) as u64);
    } else {
        push_decimal(&mut v, t as u64);
    }
    proof {
        assert(v@ =~= signed_decimal(t));
    }
    text_of(&v)
}

/// The time stamp of `t` (seconds since the epoch) seen at `now`, in a time
/// zone `off` seconds ahead of UTC: month, day and year for a time in the
/// future or more than six months back, month, day, hours and minutes
/// otherwise; the bare seconds where the local time lies outside the
/// calendar's range.
pub fn format_time_at(t: i64, now: i64, off: i32) -> (r: String)
    ensures
        r@ == stamp_text_at(t, now, off as int),
{
    let pattern = stamp_pattern(t, now);
    let local = t as i128 + off as i128;
    if local < MIN_TS as i128 || local > MAX_TS as i128 {
        seconds_text(t)
    } else {
        format_local(local as i64, pattern)
    }
}

/// The time stamp of `t` seen at `now` in the local time zone, as
/// `format_time_at` renders it at the zone's offset at `t`; the bare seconds
/// where `t` lies outside the calendar's range.
pub fn format_time(t: i64, now: i64) -> (r: String)
    ensures
        stamp_ok(t, now, r@),
        !in_calendar(t as int) ==> r@ == signed_decimal(t),
{
    if t < MIN_TS || t > MAX_TS {
        return seconds_text(t);
    }
    match local_offset(t) {
        Some(off) => {
            let r = format_time_at(t, now, off);
            assert(stamp_at(t, now, off as int, r@));
            r
        },
        None => seconds_text(t),
    }
}

} // verus!
