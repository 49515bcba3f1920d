//! Precipitation-aware skip decisions for garden schedules.
//!
//!   skip = available
//!       AND schedule.skip_on_rain
//!       AND (current_mm >= active_rain_mm
//!            OR past_mm + forecast_weight * forecast_mm >= threshold_mm)
//!
//! The two comparisons are made on floating-point millimetre readings outside
//! this library; what the decision reads of a snapshot is whether it is
//! available and how those two comparisons came out. An unavailable snapshot
//! (service down or feature disabled) never skips anything: better a wasted
//! watering than a parched bed.
use vstd::prelude::*;

use crate::calendar::{chrono_seconds_between, seconds_between, DateTime};
use crate::repository::models::garden_schedule::GardenSchedule;
use crate::text::{decimal, push_decimal};

verus! {

/// What the skip decision reads of a precipitation snapshot.
#[derive(Clone, Copy, Debug, PartialEq, Eq, Structural)]
pub struct PrecipReading {
    /// Whether a reading could be had at all.
    pub available: bool,
    /// `current_mm >= active_rain_mm`: it is raining now.
    pub actively_raining: bool,
    /// `past_mm + forecast_weight * forecast_mm >= threshold_mm`.
    pub meets_threshold: bool,
}

impl PrecipReading {
    /// The reading used when the service is down or the feature disabled.
    pub fn unavailable() -> (r: PrecipReading)
        ensures
            !r.available,
            !r.actively_raining,
            !r.meets_threshold,
    {
        PrecipReading { available: false, actively_raining: false, meets_threshold: false }
    }

    pub open spec fn spec_is_wet(self) -> bool {
        self.available && (self.actively_raining || self.meets_threshold)
    }

    /// Wet enough to skip: available, and raining now or over the threshold.
    pub fn is_wet(&self) -> (r: bool)
        ensures
            r == self.spec_is_wet(),
    {
        if !self.available {
            return false;
        }
        self.actively_raining || self.meets_threshold
    }
}

pub open spec fn spec_should_skip(schedule: GardenSchedule, precip: PrecipReading) -> bool {
    schedule.skip_on_rain && precip.spec_is_wet()
}

/// Whether this schedule's run is skipped, given the snapshot. Honors the
/// per-schedule `skip_on_rain` flag so covered or indoor zones can opt out.
pub fn should_skip(schedule: &GardenSchedule, precip: &PrecipReading) -> (r: bool)
    ensures
        r == spec_should_skip(*schedule, *precip),
{
    schedule.skip_on_rain && precip.is_wet()
}

/// An unavailable snapshot never skips, a schedule that opted out is never
/// skipped, and a dry snapshot skips nothing.
pub proof fn lemma_skip_needs_rain(schedule: GardenSchedule, precip: PrecipReading)
    ensures
        !precip.available ==> !spec_should_skip(schedule, precip),
        !schedule.skip_on_rain ==> !spec_should_skip(schedule, precip),
        (!precip.actively_raining && !precip.meets_threshold) ==> !spec_should_skip(schedule, precip),
        (schedule.skip_on_rain && precip.available && precip.actively_raining) ==> spec_should_skip(
            schedule,
            precip,
        ),
{
}

/// Where the parts of an hourly precipitation series lie: the first
/// `past_hours` values are observed hours, the next one is the current hour,
/// and the rest are forecast.
#[derive(Clone, Copy, Debug, PartialEq, Eq, Structural)]
pub struct HourlyLayout {
    /// Values before this index are past hours.
    pub past_end: usize,
    /// The index of the current hour; forecast hours follow it.
    pub current: usize,
}

/// Checks that a series of `len` hourly values holds the past hours asked
/// for and the current hour, and says where each part lies.
pub fn hourly_layout(len: usize, past_hours: u32) -> (r: Result<HourlyLayout, String>)
    ensures
        match r {
            Ok(l) => len >= past_hours + 1 && l.past_end == past_hours && l.current == past_hours,
            Err(m) => len < past_hours + 1 && m@ == "open-meteo returned "@ + decimal(len as nat)
                + " hours, expected at least "@ + decimal((past_hours + 1) as nat),
        },
{
    let needed: u64 = past_hours as u64 + 1;
    if (len as u64) < needed {
        let mut m = String::from_str("open-meteo returned ");
        push_decimal(&mut m, len as u64);
        m.append(" hours, expected at least ");
        push_decimal(&mut m, needed);
        return Err(m);
    }
    Ok(HourlyLayout { past_end: past_hours as usize, current: past_hours as usize })
}

impl PrecipReading {
    /// The reading for a tick: unavailable when the feature is disabled or the
    /// lookup failed (`None`); otherwise available, with the lookup's two
    /// comparisons (raining now, over the threshold).
    pub fn from_lookup(enabled: bool, lookup: Option<(bool, bool)>) -> (r: PrecipReading)
        ensures
            r == (match lookup {
                Some(c) if enabled => PrecipReading {
                    available: true,
                    actively_raining: c.0,
                    meets_threshold: c.1,
                },
                _ => PrecipReading { available: false, actively_raining: false, meets_threshold: false },
            }),
    {
        if !enabled {
            return PrecipReading::unavailable();
        }
        match lookup {
            Some(c) => PrecipReading { available: true, actively_raining: c.0, meets_threshold: c.1 },
            None => PrecipReading::unavailable(),
        }
    }
}

/// The longest cache lifetime, in seconds, that chrono's `TimeDelta::seconds`
/// accepts.
pub const MAX_TTL_SECS: u64 = 9_223_372_036_854_775;

/// A reading fetched at `fetched_at` may still be used at `now` while less
/// than `ttl_secs` seconds have passed: `now - fetched_at < ttl`. A clock that
/// went back counts as fresh; otherwise the whole seconds chrono counts decide,
/// as the ttl is whole seconds.
pub open spec fn spec_cache_fresh(fetched_at: DateTime, now: DateTime, ttl_secs: u64) -> bool {
    now.spec_before(fetched_at) || chrono_seconds_between(now, fetched_at) < ttl_secs
}

/// An instant earlier than another is no whole second after it.
proof fn lemma_earlier_not_after(a: DateTime, b: DateTime)
    requires
        a.wf(),
        b.wf(),
        a.spec_before(b),
    ensures
        chrono_seconds_between(a, b) <= 0,
{
    let frac = a.time.nanos - b.time.nanos;
    assert(-2_000_000_000 < frac < 2_000_000_000);
    if a.date.days < b.date.days {
        assert((a.date.days - b.date.days) * 86400 <= -86400) by (nonlinear_arith)
            requires
                a.date.days < b.date.days,
        ;
    }
}

/// A cached reading lives for whole seconds counted across days: once at
/// least `ttl_secs` seconds (more than none) have passed since it was
/// fetched it is stale, and while fewer have passed it may be reused.
pub proof fn lemma_cache_lifetime(fetched_at: DateTime, now: DateTime, ttl_secs: u64)
    requires
        fetched_at.wf(),
        now.wf(),
    ensures
        ttl_secs > 0 && chrono_seconds_between(now, fetched_at) >= ttl_secs ==> !spec_cache_fresh(
            fetched_at,
            now,
            ttl_secs,
        ),
        0 <= chrono_seconds_between(now, fetched_at) < ttl_secs ==> spec_cache_fresh(fetched_at, now, ttl_secs),
{
    if now.spec_before(fetched_at) {
        lemma_earlier_not_after(now, fetched_at);
    }
}

/// Whether a cached reading may still be used.
pub fn cache_is_fresh(fetched_at: &DateTime, now: &DateTime, ttl_secs: u64) -> (r: bool)
    requires
        fetched_at.wf(),
        now.wf(),
        ttl_secs <= MAX_TTL_SECS,
    ensures
        r == spec_cache_fresh(*fetched_at, *now, ttl_secs),
        ttl_secs > 0 && chrono_seconds_between(*now, *fetched_at) >= ttl_secs ==> !r,
        0 <= chrono_seconds_between(*now, *fetched_at) < ttl_secs ==> r,
{
    proof {
        lemma_cache_lifetime(*fetched_at, *now, ttl_secs);
    }
    if now.before(fetched_at) {
        return true;
    }
    let secs = seconds_between(now, fetched_at);
    secs < 0 || (secs as u64) < ttl_secs
}

} // verus!
