//! The FX trading clock in America/New_York: the daily session close at
//! 17:00 and the trading week that opens Sunday 18:00 and closes Friday
//! 17:00. Instants are epoch milliseconds (UTC); the time-zone rules are
//! chrono-tz's.
use vstd::prelude::*;
use chrono::{Datelike, TimeZone};

verus! {

pub const DAY_MS: i64 = 86_400_000;

/// Hour (America/New_York) at which the FX trading session rolls over.
pub const SESSION_CLOSE_HOUR: u32 = 17;

/// Hour (America/New_York) at which the trading week opens on Sunday.
pub const WEEK_OPEN_HOUR: u32 = 18;

/// The instants at which the New York wall-clock time `y-m-d h:00:00`
/// occurs, as chrono-tz resolves it: None where that time does not exist
/// (a DST gap, or an invalid date), `(t, t)` where it occurs once, and
/// `(earliest, latest)` where a DST fold makes it occur twice.
pub uninterp spec fn ny_local(y: i32, m: u32, d: u32, h: u32) -> Option<(i64, i64)>;

/// The New York civil date of an instant: `(year, month, day, days since
/// Sunday)`; None where chrono cannot represent the instant.
pub uninterp spec fn ny_date(ms: i64) -> Option<(i32, u32, u32, u32)>;

/// Calls `New_York.with_ymd_and_hms(y, m, d, h, 0, 0)` and reports its
/// `Single`/`Ambiguous`/`None` result in epoch milliseconds. Claimed beyond
/// the name: an ambiguous time's two instants come earliest first, as the
/// chrono documentation says.
#[verifier::external_body]
fn ny_local_ms(y: i32, m: u32, d: u32, h: u32) -> (r: Option<(i64, i64)>)
    ensures
        r == ny_local(y, m, d, h),
        r matches Some(p) ==> p.0 <= p.1,
{
    match chrono_tz::America::New_York.with_ymd_and_hms(y, m, d, h, 0, 0) {
        chrono::LocalResult::Single(t) => Some((t.timestamp_millis(), t.timestamp_millis())),
        chrono::LocalResult::Ambiguous(a, b) => Some((a.timestamp_millis(), b.timestamp_millis())),
        chrono::LocalResult::None => None,
    }
}

/// Calls `Utc.timestamp_millis_opt(ms)`, takes the instant to New York
/// with `with_timezone`, and returns its year, month, day and
/// `weekday().num_days_from_sunday()`; None where chrono rejects `ms`.
/// Claimed beyond the name: month, day and weekday are in their ranges.
#[verifier::external_body]
fn ny_date_of(ms: i64) -> (r: Option<(i32, u32, u32, u32)>)
    ensures
        r == ny_date(ms),
        r matches Some(d) ==> 1 <= d.1 <= 12 && 1 <= d.2 <= 31 && d.3 <= 6,
{
    match chrono::Utc.timestamp_millis_opt(ms) {
        chrono::LocalResult::Single(t) => {
            let l = t.with_timezone(&chrono_tz::America::New_York);
            Some((l.year(), l.month(), l.day(), l.weekday().num_days_from_sunday()))
        },
        _ => None,
    }
}

/// `t` when the wall-clock time occurs exactly once.
pub open spec fn single(r: Option<(i64, i64)>) -> Option<i64> {
    match r {
        Some(p) => if p.0 == p.1 { Some(p.0) } else { None },
        None => None,
    }
}

/// The close from the readings of 17:00 and 18:00 local time on one date:
/// 17:00 when it occurs exactly once, else the earliest 18:00.
pub open spec fn close_from(at_close: Option<(i64, i64)>, at_next: Option<(i64, i64)>) -> Option<i64> {
    match single(at_close) {
        Some(t) => Some(t),
        None => match at_next {
            Some(p) => Some(p.0),
            None => None,
        },
    }
}

/// 17:00 New York on the given date; should 17:00 not occur exactly once,
/// the earliest 18:00.
pub open spec fn spec_ny_close_on(y: i32, m: u32, d: u32) -> Option<i64> {
    close_from(ny_local(y, m, d, SESSION_CLOSE_HOUR), ny_local(y, m, d, (SESSION_CLOSE_HOUR + 1) as u32))
}

/// A leap year of the proleptic Gregorian calendar.
pub open spec fn is_leap_year(y: int) -> bool {
    (y % 4 == 0 && y % 100 != 0) || y % 400 == 0
}

/// The number of days of month `m` (1..=12) of year `y`.
pub open spec fn days_in_month(y: int, m: int) -> int {
    if m == 2 {
        if is_leap_year(y) { 29 } else { 28 }
    } else if m == 4 || m == 6 || m == 9 || m == 11 {
        30
    } else {
        31
    }
}

/// The civil date `(year, month, day)` one day before `d`; None before
/// the first representable year.
pub open spec fn day_before(d: (i32, u32, u32)) -> Option<(i32, u32, u32)> {
    if d.2 > 1 {
        Some((d.0, d.1, (d.2 - 1) as u32))
    } else if d.1 > 1 {
        Some((d.0, (d.1 - 1) as u32, days_in_month(d.0 as int, d.1 - 1) as u32))
    } else if d.0 > i32::MIN {
        Some(((d.0 - 1) as i32, 12, 31))
    } else {
        None
    }
}

/// The civil date `n` days before `d`.
pub open spec fn days_before(d: (i32, u32, u32), n: nat) -> Option<(i32, u32, u32)>
    decreases n,
{
    if n == 0 {
        Some(d)
    } else {
        match days_before(d, (n - 1) as nat) {
            Some(e) => day_before(e),
            None => None,
        }
    }
}

/// The New York civil date `(year, month, day)` of the instant `ms`.
pub open spec fn date_of(ms: i64) -> Option<(i32, u32, u32)> {
    match ny_date(ms) {
        Some(d) => Some((d.0, d.1, d.2)),
        None => None,
    }
}

/// The session close on a civil date, if there is one.
pub open spec fn close_on(d: Option<(i32, u32, u32)>) -> Option<i64> {
    match d {
        Some(x) => spec_ny_close_on(x.0, x.1, x.2),
        None => None,
    }
}

/// Today's close if it has passed by `now`, else the close before it.
pub open spec fn latest_close(now: i64, today: Option<i64>, earlier: Option<i64>) -> Option<i64> {
    match today {
        Some(c) => if c > now {
            earlier
        } else {
            Some(c)
        },
        None => None,
    }
}

/// The most recent 17:00 New York close at or before `now`: the close on
/// `now`'s New York date if it has passed, else the close on the civil day
/// before that date.
pub open spec fn spec_last_session_close(now: i64) -> Option<i64> {
    match date_of(now) {
        Some(d) => latest_close(now, close_on(Some(d)), close_on(day_before(d))),
        None => None,
    }
}

/// The session close on the civil day before the New York date of `close`.
pub open spec fn spec_previous_close(close: i64) -> Option<i64> {
    match date_of(close) {
        Some(d) => close_on(day_before(d)),
        None => None,
    }
}

/// The week's start from the readings of 18:00 local time on this week's
/// Sunday and on the Sunday a week before: this Sunday's open when it
/// occurs exactly once and has passed, else the earlier Sunday's open.
pub open spec fn week_start_from(now: i64, sunday_open: Option<(i64, i64)>, earlier_open: Option<(i64, i64)>) -> Option<i64> {
    match single(sunday_open) {
        Some(t) => if t > now {
            single(earlier_open)
        } else {
            Some(t)
        },
        None => None,
    }
}

/// The civil date of the Sunday of `now`'s week in New York.
pub open spec fn week_sunday(now: i64) -> Option<(i32, u32, u32)> {
    match ny_date(now) {
        Some(d) => days_before((d.0, d.1, d.2), d.3 as nat),
        None => None,
    }
}

/// The 18:00 New York reading on a civil date, if there is one.
pub open spec fn open_reading(d: Option<(i32, u32, u32)>) -> Option<(i64, i64)> {
    match d {
        Some(x) => ny_local(x.0, x.1, x.2, WEEK_OPEN_HOUR),
        None => None,
    }
}

/// The most recent Sunday 18:00 New York open at or before `now` (see
/// `week_start_from`); None where chrono cannot represent the instants.
pub open spec fn spec_week_start(now: i64) -> Option<i64> {
    match week_sunday(now) {
        Some(s) => week_start_from(now, open_reading(Some(s)), open_reading(days_before(s, 7))),
        None => None,
    }
}

/// The week bounds from the readings of Sunday 18:00 and Friday 17:00
/// local time: both instants, when each occurs exactly once.
pub open spec fn bounds_from(sunday_open: Option<(i64, i64)>, friday_close: Option<(i64, i64)>) -> Option<(i64, i64)> {
    match (single(sunday_open), single(friday_close)) {
        (Some(a), Some(b)) => Some((a, b)),
        _ => None,
    }
}

/// The previous trading week: Sunday 18:00 New York on the civil date 7
/// days before this week's Sunday, to Friday 17:00 on the date 2 days
/// before it.
pub open spec fn spec_previous_week(now: i64) -> Option<(i64, i64)> {
    match spec_week_start(now) {
        Some(ws) => match date_of(ws) {
            Some(sun) => match (days_before(sun, 7), days_before(sun, 2)) {
                (Some(p), Some(f)) => bounds_from(
                    ny_local(p.0, p.1, p.2, WEEK_OPEN_HOUR),
                    ny_local(f.0, f.1, f.2, SESSION_CLOSE_HOUR),
                ),
                _ => None,
            },
            None => None,
        },
        None => None,
    }
}

fn single_of(r: Option<(i64, i64)>) -> (t: Option<i64>)
    ensures
        t == single(r),
{
    match r {
        Some(p) => if p.0 == p.1 {
            Some(p.0)
        } else {
            None
        },
        None => None,
    }
}

/// The close from the readings of 17:00 and 18:00 local time on one date
/// (see `close_from`).
pub fn close_from_local(at_close: Option<(i64, i64)>, at_next: Option<(i64, i64)>) -> (r: Option<i64>)
    ensures
        r == close_from(at_close, at_next),
{
    match single_of(at_close) {
        Some(t) => Some(t),
        None => match at_next {
            Some(p) => Some(p.0),
            None => None,
        },
    }
}

/// 17:00 New York on `y-m-d` in epoch ms (DST-safe); the earliest 18:00
/// should 17:00 not occur exactly once; None when neither exists.
pub fn ny_close_on(y: i32, m: u32, d: u32) -> (r: Option<i64>)
    ensures
        r == spec_ny_close_on(y, m, d),
{
    close_from_local(ny_local_ms(y, m, d, SESSION_CLOSE_HOUR), ny_local_ms(y, m, d, SESSION_CLOSE_HOUR + 1))
}

/// The number of days of month `m` of year `y` (Gregorian).
pub fn month_days(y: i32, m: u32) -> (n: u32)
    ensures
        n == days_in_month(y as int, m as int),
{
    if m == 2 {
        if (y % 4 == 0 && y % 100 != 0) || y % 400 == 0 {
            29
        } else {
            28
        }
    } else if m == 4 || m == 6 || m == 9 || m == 11 {
        30
    } else {
        31
    }
}

/// The civil date one day before `d` (see `day_before`).
pub fn previous_day(d: (i32, u32, u32)) -> (r: Option<(i32, u32, u32)>)
    ensures
        r == day_before(d),
{
    if d.2 > 1 {
        Some((d.0, d.1, d.2 - 1))
    } else if d.1 > 1 {
        Some((d.0, d.1 - 1, month_days(d.0, d.1 - 1)))
    } else if d.0 > i32::MIN {
        Some((d.0 - 1, 12, 31))
    } else {
        None
    }
}

/// The civil date `n` days before `d` (see `days_before`).
pub fn back_days(d: (i32, u32, u32), n: u32) -> (r: Option<(i32, u32, u32)>)
    ensures
        r == days_before(d, n as nat),
{
    let mut cur = d;
    let mut k: u32 = 0;
    while k < n
        invariant
            k <= n,
            days_before(d, k as nat) == Some(cur),
        decreases n - k,
    {
        match previous_day(cur) {
            Some(p) => {
                cur = p;
            },
            None => {
                proof {
                    lemma_days_before_stuck(d, k as nat, n as nat);
                }
                return None;
            },
        }
        k += 1;
    }
    Some(cur)
}

proof fn lemma_days_before_stuck(d: (i32, u32, u32), k: nat, n: nat)
    requires
        k < n,
        days_before(d, k) matches Some(c) && day_before(c) is None,
    ensures
        days_before(d, n) is None,
    decreases n - k,
{
    if n > k + 1 {
        lemma_days_before_stuck(d, k, (n - 1) as nat);
    }
}

fn date_at(ms: i64) -> (r: Option<(i32, u32, u32)>)
    ensures
        r == date_of(ms),
{
    match ny_date_of(ms) {
        Some(d) => Some((d.0, d.1, d.2)),
        None => None,
    }
}

fn close_on_day(d: Option<(i32, u32, u32)>) -> (r: Option<i64>)
    ensures
        r == close_on(d),
{
    match d {
        Some(x) => ny_close_on(x.0, x.1, x.2),
        None => None,
    }
}

/// Today's close if it has passed by `now_ms`, else the close before it
/// (see `latest_close`).
pub fn pick_latest_close(now_ms: i64, today: Option<i64>, earlier: Option<i64>) -> (r: Option<i64>)
    ensures
        r == latest_close(now_ms, today, earlier),
{
    match today {
        Some(c) => if c > now_ms {
            earlier
        } else {
            Some(c)
        },
        None => None,
    }
}

/// Most recent 17:00 America/New_York boundary at or before `now_ms`:
/// today's close if it has passed, else the close on the civil day before
/// (stepped in New York dates, so DST changes do not skip a day). None
/// where chrono cannot represent the instants involved.
pub fn last_session_close_utc(now_ms: i64) -> (r: Option<i64>)
    ensures
        r == spec_last_session_close(now_ms),
{
    match date_at(now_ms) {
        Some(d) => pick_latest_close(now_ms, close_on_day(Some(d)), close_on_day(previous_day(d))),
        None => None,
    }
}

/// The session close on the civil day before `close_ms`'s New York date
/// (kept at 17:00 local time across DST changes).
pub fn previous_session_close(close_ms: i64) -> (r: Option<i64>)
    ensures
        r == spec_previous_close(close_ms),
{
    match date_at(close_ms) {
        Some(d) => close_on_day(previous_day(d)),
        None => None,
    }
}

/// The week's start from the readings of 18:00 local time on this week's
/// Sunday and on the Sunday before (see `week_start_from`).
pub fn pick_week_start(now_ms: i64, sunday_open: Option<(i64, i64)>, earlier_open: Option<(i64, i64)>) -> (r: Option<i64>)
    ensures
        r == week_start_from(now_ms, sunday_open, earlier_open),
{
    match single_of(sunday_open) {
        Some(t) => if t > now_ms {
            single_of(earlier_open)
        } else {
            Some(t)
        },
        None => None,
    }
}

fn open_on_day(d: Option<(i32, u32, u32)>) -> (r: Option<(i64, i64)>)
    ensures
        r == open_reading(d),
{
    match d {
        Some(x) => ny_local_ms(x.0, x.1, x.2, WEEK_OPEN_HOUR),
        None => None,
    }
}

/// Start of the current trading week: the most recent Sunday 18:00
/// America/New_York open, found by stepping New York civil dates back to
/// Sunday (and a week further when this Sunday's open is still ahead).
pub fn most_recent_week_start_utc(now_ms: i64) -> (r: Option<i64>)
    ensures
        r == spec_week_start(now_ms),
{
    let d = match ny_date_of(now_ms) {
        Some(d) => d,
        None => return None,
    };
    let sunday = match back_days((d.0, d.1, d.2), d.3) {
        Some(s) => s,
        None => return None,
    };
    pick_week_start(now_ms, open_on_day(Some(sunday)), open_on_day(back_days(sunday, 7)))
}

/// The week bounds from the readings of Sunday 18:00 and Friday 17:00
/// local time (see `bounds_from`).
pub fn week_bounds_from(sunday_open: Option<(i64, i64)>, friday_close: Option<(i64, i64)>) -> (r: Option<(i64, i64)>)
    ensures
        r == bounds_from(sunday_open, friday_close),
{
    match (single_of(sunday_open), single_of(friday_close)) {
        (Some(a), Some(b)) => Some((a, b)),
        _ => None,
    }
}

/// Bounds of the previous trading week in UTC millis: its Sunday 18:00 NY
/// open and its Friday 17:00 NY close, both resolved in New York local
/// time so they stay on the FX open/close across DST changes.
pub fn previous_week_bounds_utc(now_ms: i64) -> (r: Option<(i64, i64)>)
    ensures
        r == spec_previous_week(now_ms),
{
    let ws = match most_recent_week_start_utc(now_ms) {
        Some(w) => w,
        None => return None,
    };
    let sun = match date_at(ws) {
        Some(s) => s,
        None => return None,
    };
    let (p, f) = match (back_days(sun, 7), back_days(sun, 2)) {
        (Some(p), Some(f)) => (p, f),
        _ => return None,
    };
    week_bounds_from(
        ny_local_ms(p.0, p.1, p.2, WEEK_OPEN_HOUR),
        ny_local_ms(f.0, f.1, f.2, SESSION_CLOSE_HOUR),
    )
}

/// The previous-week profile is stable all week: any two instants of one
/// trading week (the same week start) name the same previous week.
pub proof fn lemma_previous_week_stable(t1: i64, t2: i64)
    requires
        spec_week_start(t1) == spec_week_start(t2),
    ensures
        spec_previous_week(t1) == spec_previous_week(t2),
{
}

/// The Gregorian calendar's month lengths: thirty days have September,
/// April, June and November; February has 28, or 29 in a leap year; all
/// the rest have 31. So the twelve months of a year add up to 365 days, or
/// 366 in a leap year.
pub proof fn lemma_month_lengths(y: int)
    ensures
        days_in_month(y, 4) == 30,
        days_in_month(y, 6) == 30,
        days_in_month(y, 9) == 30,
        days_in_month(y, 11) == 30,
        days_in_month(y, 1) == 31,
        days_in_month(y, 3) == 31,
        days_in_month(y, 5) == 31,
        days_in_month(y, 7) == 31,
        days_in_month(y, 8) == 31,
        days_in_month(y, 10) == 31,
        days_in_month(y, 12) == 31,
        days_in_month(y, 2) == if (y % 4 == 0 && y % 100 != 0) || y % 400 == 0 { 29int } else { 28int },
        days_in_month(y, 1) + days_in_month(y, 2) + days_in_month(y, 3) + days_in_month(y, 4) + days_in_month(y, 5)
            + days_in_month(y, 6) + days_in_month(y, 7) + days_in_month(y, 8) + days_in_month(y, 9)
            + days_in_month(y, 10) + days_in_month(y, 11) + days_in_month(y, 12) == if (y % 4 == 0 && y % 100
            != 0) || y % 400 == 0 {
            366int
        } else {
            365int
        },
{
}

/// A real civil date: a month of the year and a day of that month.
pub open spec fn valid_date(d: (i32, u32, u32)) -> bool {
    1 <= d.1 <= 12 && 1 <= d.2 <= days_in_month(d.0 as int, d.1 as int)
}

/// Stepping back a day from a real date gives a real date: the same month
/// one day earlier, or the last day of the month before (December 31 of
/// the year before on January 1). Going forward again from it lands on the
/// date started from.
pub proof fn lemma_day_before_is_the_previous_date(d: (i32, u32, u32))
    requires
        valid_date(d),
        d.0 > i32::MIN,
    ensures
        day_before(d) matches Some(p) && valid_date(p) && {
            if d.2 > 1 {
                p == (d.0, d.1, (d.2 - 1) as u32)
            } else if d.1 > 1 {
                p.0 == d.0 && p.1 == d.1 - 1 && p.2 == days_in_month(p.0 as int, p.1 as int)
            } else {
                p == ((d.0 - 1) as i32, 12u32, 31u32)
            }
        } && (if p.2 < days_in_month(p.0 as int, p.1 as int) {
            d == (p.0, p.1, (p.2 + 1) as u32)
        } else if p.1 < 12 {
            d == (p.0, (p.1 + 1) as u32, 1u32)
        } else {
            d == ((p.0 + 1) as i32, 1u32, 1u32)
        }),
{
}

} // verus!
