use chrono::NaiveDate;

use rpsump::calendar::{seconds_between, Date, DateTime, Time};
use rpsump::hydro::weather::{cache_is_fresh, should_skip, PrecipReading};
use rpsump::repository::models::garden_schedule::GardenSchedule;

fn schedule(id: i32, skip_on_rain: bool) -> GardenSchedule {
    let t = DateTime {
        date: Date { days: chrono::Datelike::num_days_from_ce(&NaiveDate::from_ymd_opt(1970, 1, 1).unwrap()) },
        time: Time { secs: 0, nanos: 0 },
    };
    GardenSchedule {
        id,
        name: format!("zone {id}"),
        active: true,
        start_times: "06:00".to_string(),
        days_of_week: "Mon".to_string(),
        duration_secs: 60,
        skip_on_rain,
        created_at: t,
        updated_at: t,
    }
}

/// The reading of a snapshot with threshold 5.0 mm, forecast weight 0.5 and
/// active rain floor 0.3 mm: the two comparisons the skip decision reads.
fn snap(past: f32, current: f32, forecast: f32, available: bool) -> PrecipReading {
    let threshold_mm: f32 = 5.0;
    let forecast_weight: f32 = 0.5;
    let active_rain_mm: f32 = 0.3;
    PrecipReading {
        available,
        actively_raining: current >= active_rain_mm,
        meets_threshold: past + forecast_weight * forecast >= threshold_mm,
    }
}

#[test]
fn dry_snapshot_is_not_wet() {
    assert!(!snap(0.0, 0.0, 0.0, true).is_wet());
}

#[test]
fn unavailable_snapshot_is_never_wet() {
    let s = snap(100.0, 100.0, 100.0, false);
    assert!(!s.is_wet());
    assert!(!PrecipReading::unavailable().is_wet());
}

#[test]
fn active_rain_short_circuits_threshold() {
    let s = snap(0.0, 0.5, 0.0, true);
    assert!(s.actively_raining);
    assert!(!s.meets_threshold);
    assert!(s.is_wet());
}

#[test]
fn drizzle_below_active_rain_floor_does_not_trip_active_check() {
    let s = snap(0.0, 0.1, 0.0, true);
    assert!(!s.actively_raining);
    assert!(!s.is_wet());
}

#[test]
fn past_alone_can_meet_threshold() {
    assert!(snap(8.0, 0.0, 0.0, true).is_wet());
}

#[test]
fn forecast_alone_must_exceed_threshold_after_weighting() {
    assert!(!snap(0.0, 0.0, 9.0, true).is_wet());
    assert!(snap(0.0, 0.0, 12.0, true).is_wet());
}

#[test]
fn threshold_boundary_is_inclusive() {
    assert!(snap(5.0, 0.0, 0.0, true).is_wet());
}

#[test]
fn should_skip_dry_runs_everything() {
    let s = snap(0.0, 0.0, 0.0, true);
    assert!(!should_skip(&schedule(1, true), &s));
    assert!(!should_skip(&schedule(2, false), &s));
}

#[test]
fn should_skip_wet_skips_only_rain_aware_schedules() {
    let s = snap(8.0, 0.0, 0.0, true);
    assert!(should_skip(&schedule(1, true), &s));
    assert!(!should_skip(&schedule(2, false), &s));
}

#[test]
fn should_skip_unavailable_never_skips() {
    let s = snap(100.0, 100.0, 100.0, false);
    assert!(!should_skip(&schedule(1, true), &s));
}

#[test]
fn should_skip_wet_but_schedule_opts_out_runs() {
    let s = snap(20.0, 5.0, 20.0, true);
    assert!(!should_skip(&schedule(42, false), &s));
}

#[test]
fn hourly_series_must_hold_the_past_and_current_hours() {
    let l = rpsump::hydro::weather::hourly_layout(37, 24).unwrap();
    assert_eq!((l.past_end, l.current), (24, 24));
    let l = rpsump::hydro::weather::hourly_layout(25, 24).unwrap();
    assert_eq!(l.current, 24);
    assert_eq!(
        rpsump::hydro::weather::hourly_layout(24, 24).unwrap_err(),
        "open-meteo returned 24 hours, expected at least 25"
    );
    assert_eq!(
        rpsump::hydro::weather::hourly_layout(0, 0).unwrap_err(),
        "open-meteo returned 0 hours, expected at least 1"
    );
}

#[test]
fn a_disabled_or_failed_lookup_is_unavailable() {
    assert_eq!(PrecipReading::from_lookup(false, Some((true, true))), PrecipReading::unavailable());
    assert_eq!(PrecipReading::from_lookup(true, None), PrecipReading::unavailable());
    let r = PrecipReading::from_lookup(true, Some((false, true)));
    assert!(r.available && !r.actively_raining && r.meets_threshold);
    assert!(r.is_wet());
}

#[test]
fn cached_readings_stay_fresh_for_their_lifetime() {

    let at = |secs: u32, nanos: u32| DateTime { date: Date { days: 739000 }, time: Time { secs, nanos } };
    assert!(cache_is_fresh(&at(100, 0), &at(100, 0), 900));
    assert!(cache_is_fresh(&at(100, 0), &at(999, 999_999_999), 900));
    assert!(!cache_is_fresh(&at(100, 0), &at(1000, 0), 900));
    assert!(!cache_is_fresh(&at(100, 0), &at(100, 0), 0));
    assert!(cache_is_fresh(&at(100, 0), &at(50, 0), 0));
}

#[test]
fn seconds_between_counts_leap_seconds_and_cuts_toward_zero() {

    let at = |days: i32, secs: u32, nanos: u32| DateTime { date: Date { days }, time: Time { secs, nanos } };
    assert_eq!(seconds_between(&at(739000, 1, 0), &at(739000, 0, 0)), 1);
    assert_eq!(seconds_between(&at(739000, 0, 500_000_000), &at(739000, 1, 0)), 0);
    assert_eq!(seconds_between(&at(739000, 0, 0), &at(739000, 2, 500_000_000)), -2);
    assert_eq!(seconds_between(&at(739000, 61, 0), &at(739000, 59, 1_200_000_000)), 1);
    assert_eq!(seconds_between(&at(739001, 0, 0), &at(739000, 86399, 1_500_000_000)), 0);
    assert_eq!(seconds_between(&at(739001, 10, 0), &at(739000, 86390, 0)), 20);
}
