//! Civil (calendar) time and the weekly digest window.
//!
//! A moment is carried as a `Civil` value: year, month, day, hour, minute,
//! second, proleptic Gregorian. Internally every computation runs on a *time
//! index*: whole seconds since 1600-03-01 00:00:00, an anchor chosen so that
//! every well-formed civil value has a nonnegative index (the Gregorian leap
//! pattern repeats every 400 years, and 1600 opens a cycle).
//!
//! The digest window of an instant `now` is `[week_start, now)`, where
//! `week_start` is 00:00:00 of the most recent Sunday on or before `now` in
//! the reference timezone, given by its offset from UTC in seconds.

use vstd::prelude::*;

verus! {

/// Seconds in one day.
pub const SECS_PER_DAY: u64 = 86400;

/// Day index of 1970-01-01 (days since the 1600-03-01 anchor).
pub const DAY_INDEX_1970: u64 = 135080;

/// Largest year a `Civil` value may carry.
pub const MAX_YEAR: u64 = 9999;

/// A civil date and time of day, second precision, no timezone attached.
#[derive(Clone, Copy, Debug, PartialEq, Eq, Structural)]
pub struct Civil {
    pub year: u64,
    pub month: u64,
    pub day: u64,
    pub hour: u64,
    pub minute: u64,
    pub second: u64,
}

/// Whether `y` is a Gregorian leap year.
pub open spec fn is_leap_year(y: int) -> bool {
    (y % 4 == 0 && y % 100 != 0) || y % 400 == 0
}

/// Number of days in month `m` of year `y`.
pub open spec fn days_in_month(y: int, m: int) -> int {
    if m == 2 {
        if is_leap_year(y) {
            29
        } else {
            28
        }
    } else if m == 4 || m == 6 || m == 9 || m == 11 {
        30
    } else {
        31
    }
}

impl Civil {
    /// A well-formed civil value: a real calendar date between 1970 and
    /// `MAX_YEAR`, with a valid time of day.
    pub open spec fn wf(self) -> bool {
        &&& 1970 <= self.year <= MAX_YEAR
        &&& 1 <= self.month <= 12
        &&& 1 <= self.day <= days_in_month(self.year as int, self.month as int)
        &&& self.hour <= 23
        &&& self.minute <= 59
        &&& self.second <= 59
    }
}

/// Day index of the civil date `(y, m, d)`: days since 1600-03-01.
///
/// Era-based counting: years are shifted so each era is a full 400-year
/// Gregorian cycle and the day-of-year count starts in March, which puts the
/// leap day last.
pub open spec fn day_index(y: int, m: int, d: int) -> int {
    let yy = if m <= 2 {
        y - 1601
    } else {
        y - 1600
    };
    let era = yy / 400;
    let yoe = yy - era * 400;
    let mp = if m > 2 {
        m - 3
    } else {
        m + 9
    };
    let doy = (153 * mp + 2) / 5 + d - 1;
    let doe = yoe * 365 + yoe / 4 - yoe / 100 + doy;
    era * 146097 + doe
}

/// Time index of a civil value: seconds since the anchor instant.
pub open spec fn time_index(c: Civil) -> int {
    day_index(c.year as int, c.month as int, c.day as int) * 86400 + c.hour * 3600
        + c.minute * 60 + c.second
}

/// Day of week of a day index: 0 is Sunday, 6 is Saturday.
/// The anchor day, 1600-03-01, was a Wednesday.
pub open spec fn weekday_of_day(d: int) -> int {
    (d + 3) % 7
}

/// Time index of 00:00:00 of the most recent Sunday on or before the local
/// instant `local` (both on the same local scale).
pub open spec fn week_start_local(local: int) -> int {
    let d = local / 86400;
    (d - weekday_of_day(d)) * 86400
}

/// Whether the timestamp `ts` (UTC scale) belongs to the digest window of the
/// instant `now` (UTC scale) for a reference timezone `off` seconds east of
/// UTC: the window is `[start of the local calendar week, now)`.
pub open spec fn in_window(ts: int, now: int, off: int) -> bool {
    week_start_local(now + off) - off <= ts < now
}

/// Exec mirror of `days_in_month`.
pub fn days_in_month_of(y: u64, m: u64) -> (r: u64)
    requires
        1 <= m <= 12,
    ensures
        r == days_in_month(y as int, m as int),
{
    if m == 2 {
        if (y % 4 == 0 && y % 100 != 0) || y % 400 == 0 {
            29
        } else {
            28
        }
    } else if m == 4 || m == 6 || m == 9 || m == 11 {
        30
    } else {
        31
    }
}

/// Day index of a well-formed civil date, with its bounds.
pub fn day_index_of(c: &Civil) -> (r: u64)
    requires
        c.wf(),
    ensures
        r == day_index(c.year as int, c.month as int, c.day as int),
        r <= 3068036,
{
    let yy: u64 = if c.month <= 2 {
        c.year - 1601
    } else {
        c.year - 1600
    };
    let era: u64 = yy / 400;
    let yoe: u64 = yy - era * 400;
    let mp: u64 = if c.month > 2 {
        c.month - 3
    } else {
        c.month + 9
    };
    let doy: u64 = (153 * mp + 2) / 5 + c.day - 1;
    let doe: u64 = yoe * 365 + yoe / 4 - yoe / 100 + doy;
    era * 146097 + doe
}

/// Time index (seconds since the anchor) of a well-formed civil value.
///
/// Every well-formed value, lying in 1970 or later, has an index at or above
/// that of 1970-01-01 00:00:00.
pub fn time_index_of(c: &Civil) -> (r: u64)
    requires
        c.wf(),
    ensures
        r == time_index(*c),
        DAY_INDEX_1970 * SECS_PER_DAY <= r <= 265158547199,
{
    proof {
        lemma_time_index_min(*c);
    }
    let days = day_index_of(c);
    days * 86400 + c.hour * 3600 + c.minute * 60 + c.second
}

/// A well-formed civil value has a day index at or above that of 1970-01-01.
pub proof fn lemma_day_index_min(c: Civil)
    requires
        c.wf(),
    ensures
        day_index(c.year as int, c.month as int, c.day as int) >= DAY_INDEX_1970,
{
    let y = c.year as int;
    let m = c.month as int;
    let d = c.day as int;
    let yy = if m <= 2 {
        y - 1601
    } else {
        y - 1600
    };
    let era = yy / 400;
    let yoe = yy - era * 400;
    let mp = if m > 2 {
        m - 3
    } else {
        m + 9
    };
    let doy = (153 * mp + 2) / 5 + d - 1;
    let doe = yoe * 365 + yoe / 4 - yoe / 100 + doy;
    assert(yy >= 369);
    assert(0 <= yoe < 400);
    assert(doy >= 0);
    if era == 0 {
        if yy == 369 {
            // Only 1970 with January or February shifts here, and the
            // March-based day of year of those months is at least 306.
            assert(mp >= 10);
            assert(doy >= (153 * 10 + 2) / 5);
            assert(yoe == 369);
            assert(doe >= 369 * 365 + 369int / 4 - 369int / 100 + 306);
        } else {
            assert(yoe == yy && yy >= 370);
            assert(yoe / 100 <= yoe / 4) by {
                vstd::arithmetic::div_mod::lemma_div_is_ordered_by_denominator(yoe, 4, 100);
            }
            assert(yoe * 365 >= 370 * 365);
            assert(doe >= 370 * 365);
        }
    } else {
        assert(era >= 1);
        assert(yoe / 100 <= yoe / 4) by {
            vstd::arithmetic::div_mod::lemma_div_is_ordered_by_denominator(yoe, 4, 100);
        }
        assert(doe >= 0);
        assert(era * 146097 >= 146097);
    }
}

/// A well-formed civil value has a time index at or above that of
/// 1970-01-01 00:00:00.
pub proof fn lemma_time_index_min(c: Civil)
    requires
        c.wf(),
    ensures
        time_index(c) >= DAY_INDEX_1970 * SECS_PER_DAY,
{
    lemma_day_index_min(c);
}

/// The start of the week of `now` is at most `now` and less than a full week
/// before it.
pub proof fn lemma_week_start_bounds(local: int)
    requires
        local >= 0,
    ensures
        local - 7 * 86400 < week_start_local(local) <= local,
        week_start_local(local) % 86400 == 0,
{
    let d = local / 86400;
    let w = weekday_of_day(d);
    assert(0 <= w < 7);
    assert(d * 86400 <= local < (d + 1) * 86400) by {
        vstd::arithmetic::div_mod::lemma_fundamental_div_mod(local, 86400);
        vstd::arithmetic::div_mod::lemma_mod_bound(local, 86400);
    }
    assert((d - w) * 86400 == d * 86400 - w * 86400) by (nonlinear_arith);
    assert(((d - w) * 86400) % 86400 == 0) by {
        vstd::arithmetic::div_mod::lemma_mod_multiples_basic(d - w, 86400);
    }
}

/// Exec computation of the window start for `now` on the UTC scale, in a
/// reference timezone `off` seconds east of UTC.
///
/// Returns the UTC time index of 00:00:00 of the most recent local Sunday.
pub fn window_start(now: u64, off: i64) -> (r: u64)
    requires
        -86400 < off < 86400,
        now + off >= 8 * 86400,
        now <= 265158547199,
    ensures
        r == week_start_local(now + off) - off,
        r <= now,
{
    let local: u64 = if off >= 0 {
        now + (off as u64)
    } else {
        now - ((-off) as u64)
    };
    let d: u64 = local / 86400;
    let w: u64 = (d + 3) % 7;
    proof {
        lemma_week_start_bounds(local as int);
    }
    let start_local: u64 = (d - w) * 86400;
    if off >= 0 {
        start_local - (off as u64)
    } else {
        start_local + ((-off) as u64)
    }
}

/// The boundary law of the digest window: a timestamp exactly at the computed
/// start of the week belongs to the window, and one strictly before the start
/// does not.
pub proof fn lemma_window_boundary(ts: int, now: int, off: int)
    ensures
        ts == week_start_local(now + off) - off && ts < now ==> in_window(ts, now, off),
        ts < week_start_local(now + off) - off ==> !in_window(ts, now, off),
        in_window(ts, now, off) ==> ts < now,
{
}

} // verus!
