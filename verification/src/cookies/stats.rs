//! The only thing the randomizer keeps across runs besides the CA: an
//! aggregate, domain-free count of cookies randomized today. Its two
//! fields are the complete list of what is recorded; neither is a
//! domain, a cookie name or a value.

use vstd::prelude::*;

verus! {

pub const SECONDS_PER_DAY: u64 = 86_400;

#[derive(Debug, Clone, Copy, PartialEq, Eq, Structural)]
pub struct DailyStats {
    /// Days since the Unix epoch (`unix_seconds / 86400`): coarse enough
    /// that it cannot tell when in the day anything happened.
    pub day: u64,
    pub cookies_randomized: u64,
}

/// The day number of a Unix time in seconds.
pub fn day_of(unix_seconds: u64) -> (d: u64)
    ensures
        d == unix_seconds / SECONDS_PER_DAY,
{
    unix_seconds / SECONDS_PER_DAY
}

/// The day number of a Unix time in seconds.
pub open spec fn day_number(unix_seconds: u64) -> u64 {
    unix_seconds / SECONDS_PER_DAY
}

/// Today's day number by the machine's clock (0 when the clock reads
/// before the epoch): the day of whatever reading the clock gave.
pub fn today() -> (d: u64)
    ensures
        exists|unix_seconds: u64| d == #[trigger] day_number(unix_seconds),
{
    let now = crate::fingerprint::scan::now_unix();
    let d = day_of(now);
    assert(d == day_number(now));
    d
}

/// The count to continue from on `today`: the saved one if it is for
/// `today`, else 0.
pub open spec fn continued_count(saved: Option<DailyStats>, today: u64) -> u64 {
    match saved {
        Some(prev) => if prev.day == today {
            prev.cookies_randomized
        } else {
            0
        },
        None => 0,
    }
}

/// The counter to continue from today: the saved record if it is for
/// `today`, else a fresh zero record for `today` (the counter resets
/// daily; a missing or unreadable record counts as none).
pub fn load_today(saved: Option<DailyStats>, today: u64) -> (s: DailyStats)
    ensures
        s.day == today,
        s.cookies_randomized == continued_count(saved, today),
{
    match saved {
        Some(prev) => if prev.day == today {
            prev
        } else {
            DailyStats { day: today, cookies_randomized: 0 }
        },
        None => DailyStats { day: today, cookies_randomized: 0 },
    }
}

/// Today's record after adding `count`: the saved count is continued
/// when it is for `today` (a second run, or one spanning midnight,
/// accumulates rather than overwrites), else counting restarts at 0.
pub fn record(saved: Option<DailyStats>, today: u64, count: u64) -> (s: DailyStats)
    requires
        continued_count(saved, today) + count <= u64::MAX,
    ensures
        s.day == today,
        s.cookies_randomized == continued_count(saved, today) + count,
{
    let mut stats = load_today(saved, today);
    stats.cookies_randomized = stats.cookies_randomized + count;
    stats
}

} // verus!
