//! The weekly scheduler: Idle until the configured slot of the local week
//! is reached, then fires exactly once for that week and returns to Idle.
//!
//! The slot is Sunday 10:00 in the reference timezone (the same day the
//! digest window rolls over). The scheduler is polled on a short interval;
//! firing hands the digest trigger to the caller, and a failed trigger is
//! absorbed: nothing fires again until the next week's slot.

use vstd::prelude::*;

use crate::calendar::week_start_local;

verus! {

/// Seconds into the local week (which starts Sunday 00:00:00) at which the
/// weekly slot lies: Sunday 10:00:00.
pub const SLOT_SECS_INTO_WEEK: u64 = 36000;

/// Whether the local instant has reached its week's slot.
pub open spec fn slot_reached(local: int) -> bool {
    local - week_start_local(local) >= SLOT_SECS_INTO_WEEK
}

/// The key identifying the local week of an instant: its week's start.
pub open spec fn week_key(local: int) -> int {
    week_start_local(local)
}

/// Whether a poll at the local instant fires, given the last week fired.
pub open spec fn fires(last: Option<int>, local: int) -> bool {
    slot_reached(local) && last != Some(week_key(local))
}

/// The UTC offset, in seconds east, of the reference timezone at a given
/// instant (seconds since the Unix epoch).
pub uninterp spec fn reference_offset_secs(unix: int) -> int;

/// Relies on `chrono_tz::US::Pacific` with `chrono::TimeZone::timestamp_opt`:
/// the timezone's UTC offset at an instant depends on the instant alone and
/// is strictly smaller than one day.
#[verifier::external_body]
pub(crate) fn reference_offset_at(unix: i64) -> (r: i64)
    requires
        0 <= unix <= 253487635200,
    ensures
        r == reference_offset_secs(unix as int),
        -86400 < r < 86400,
{
    match chrono::TimeZone::timestamp_opt(&chrono_tz::US::Pacific, unix, 0) {
        chrono::LocalResult::Single(dt) => {
            chrono::Offset::fix(&chrono::DateTime::offset(&dt).clone()).local_minus_utc() as i64
        },
        _ => 0,
    }
}

/// The reference-timezone offset at a time index (seconds since the
/// calendar anchor).
pub fn offset_at_index(t: u64) -> (r: i64)
    requires
        crate::calendar::DAY_INDEX_1970 * crate::calendar::SECS_PER_DAY <= t <= 265158547199,
    ensures
        r == reference_offset_secs(t - 11670912000),
        -86400 < r < 86400,
{
    let unix = t - 11670912000;
    reference_offset_at(unix as i64)
}

/// The weekly scheduler's whole state: the week it last fired in, if any.
pub struct Scheduler {
    last_fired: Option<u64>,
}

impl View for Scheduler {
    type V = Option<int>;

    closed spec fn view(&self) -> Option<int> {
        match self.last_fired {
            Some(k) => Some(k as int),
            None => None,
        }
    }
}

impl Scheduler {
    /// A scheduler that has never fired.
    pub fn new() -> (r: Scheduler)
        ensures
            r@ is None,
    {
        Scheduler { last_fired: None }
    }

    /// One poll at the local instant `local` (reference-timezone scale):
    /// fires exactly when the week's slot is reached and this week has not
    /// fired yet, and then records the week.
    pub fn poll(&mut self, local: u64) -> (fired: bool)
        requires
            local >= 8 * 86400,
            local <= 265158547199 + 86400,
        ensures
            fired == fires(old(self)@, local as int),
            final(self)@ == if fired {
                Some(week_key(local as int))
            } else {
                old(self)@
            },
    {
        let d: u64 = local / 86400;
        let w: u64 = (d + 3) % 7;
        proof {
            crate::calendar::lemma_week_start_bounds(local as int);
        }
        let start: u64 = (d - w) * 86400;
        let into: u64 = local - start;
        let due = into >= SLOT_SECS_INTO_WEEK;
        let already = match self.last_fired {
            Some(k) => k == start,
            None => false,
        };
        if due && !already {
            self.last_fired = Some(start);
            true
        } else {
            false
        }
    }
}

/// The once-per-week law: a poll that fires records its week, and no poll
/// in the same local week fires again.
pub proof fn lemma_fires_once_per_week(last: Option<int>, local1: int, local2: int)
    requires
        fires(last, local1),
        week_key(local2) == week_key(local1),
    ensures
        !fires(Some(week_key(local1)), local2),
{
}

} // verus!
