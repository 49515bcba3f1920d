use chrono::{Datelike, NaiveDate, NaiveDateTime, Timelike};

use rpsump::calendar::{weekday_of_day, Date, DateTime, Time, Weekday, MAX_DAY, MIN_DAY};
use rpsump::hydro::garden::schedule::{
    clamp_duration, next_scheduled_run, EventPoll, GardenRun, GardenRunner, RunAction,
};
use rpsump::hydro::weather::PrecipReading;
use rpsump::repository::implementation::due_garden_events;
use rpsump::repository::models::garden_event::GardenEventStatus;
use rpsump::repository::models::garden_schedule::{
    days_to_csv, normalize_days, normalize_times, parse_days_csv, parse_times_csv, times_to_csv,
    GardenSchedule,
};

fn to_dt(t: NaiveDateTime) -> DateTime {
    DateTime {
        date: Date { days: t.date().num_days_from_ce() },
        time: Time { secs: t.time().num_seconds_from_midnight(), nanos: t.time().nanosecond() },
    }
}

fn dt(y: i32, m: u32, d: u32, h: u32, mi: u32) -> DateTime {
    to_dt(NaiveDate::from_ymd_opt(y, m, d).unwrap().and_hms_opt(h, mi, 0).unwrap())
}

fn hm(h: u32, m: u32) -> Time {
    Time { secs: h * 3600 + m * 60, nanos: 0 }
}

fn schedule(id: i32, active: bool, times: &str, days: &str) -> GardenSchedule {
    let t = dt(2023, 12, 1, 0, 0);
    GardenSchedule {
        id,
        name: format!("zone {id}"),
        active,
        start_times: times.to_string(),
        days_of_week: days.to_string(),
        duration_secs: 600,
        skip_on_rain: true,
        created_at: t,
        updated_at: t,
    }
}

#[test]
fn clamp_duration_bounds_requests() {
    assert_eq!(clamp_duration(-5, 10), 0);
    assert_eq!(clamp_duration(0, 10), 0);
    assert_eq!(clamp_duration(5, 10), 5);
    assert_eq!(clamp_duration(10, 10), 10);
    assert_eq!(clamp_duration(50, 10), 10);
    // A maximum beyond i32 reads as a negative number, as a cast does.
    assert_eq!(clamp_duration(5, u32::MAX), -1);
}

#[test]
fn weekdays_come_from_chrono() {
    // 2024-01-01 was a Monday.
    assert_eq!(dt(2024, 1, 1, 0, 0).date.weekday(), Weekday::Mon);
    assert_eq!(dt(2024, 1, 7, 0, 0).date.weekday(), Weekday::Sun);
    assert_eq!(weekday_of_day(1), Some(Weekday::Mon));
    assert!(weekday_of_day(MIN_DAY).is_some());
    assert!(weekday_of_day(MAX_DAY).is_some());
    assert_eq!(weekday_of_day(MIN_DAY - 1), None);
    assert_eq!(weekday_of_day(MAX_DAY + 1), None);
}

#[test]
fn start_times_parse_and_print() {
    let times = parse_times_csv(" 06:00, ,18:30:15,bad,7:05");
    assert_eq!(times, vec![hm(6, 0), Time { secs: 18 * 3600 + 30 * 60 + 15, nanos: 0 }, hm(7, 5)]);
    assert_eq!(times_to_csv(&times), "06:00,18:30,07:05");
    assert_eq!(times_to_csv(&[]), "");
    assert_eq!(parse_times_csv(""), vec![]);
}

#[test]
fn weekdays_parse_and_print() {
    let days = parse_days_csv("Mon, tuesday,xyz,SUN");
    assert_eq!(days, vec![Weekday::Mon, Weekday::Tue, Weekday::Sun]);
    assert_eq!(days_to_csv(&days), "Mon,Tue,Sun");
    assert_eq!(parse_days_csv(&days_to_csv(&[Weekday::Wed, Weekday::Sat])), vec![Weekday::Wed, Weekday::Sat]);
}

#[test]
fn next_run_is_the_earliest_future_one() {
    let schedules = vec![
        schedule(1, true, "06:00,18:30", "Mon,Wed"),
        schedule(2, true, "12:00", "Mon"),
        schedule(3, false, "10:30", "Mon"),
    ];
    // Monday 10:00: schedule 2 runs at noon today.
    assert_eq!(next_scheduled_run(&schedules, dt(2024, 1, 1, 10, 0)), Some((2, dt(2024, 1, 1, 12, 0))));
    // Monday 19:00: schedule 1 runs Wednesday morning.
    assert_eq!(next_scheduled_run(&schedules, dt(2024, 1, 1, 19, 0)), Some((1, dt(2024, 1, 3, 6, 0))));
    // A start time equal to now is not in the future.
    assert_eq!(next_scheduled_run(&schedules, dt(2024, 1, 1, 12, 0)), Some((1, dt(2024, 1, 1, 18, 30))));
}

#[test]
fn next_run_ties_go_to_the_first_schedule() {
    let schedules = vec![schedule(7, true, "08:00", "Tue"), schedule(8, true, "08:00", "Tue")];
    assert_eq!(next_scheduled_run(&schedules, dt(2024, 1, 1, 10, 0)), Some((7, dt(2024, 1, 2, 8, 0))));
}

#[test]
fn next_run_looks_a_full_week_ahead() {
    let schedules = vec![schedule(5, true, "09:00", "Mon")];
    // Monday 10:00: the next Monday run is seven days out.
    assert_eq!(next_scheduled_run(&schedules, dt(2024, 1, 1, 10, 0)), Some((5, dt(2024, 1, 8, 9, 0))));
}

#[test]
fn no_next_run_without_active_schedules() {
    assert_eq!(next_scheduled_run(&[], dt(2024, 1, 1, 10, 0)), None);
    let schedules = vec![schedule(1, true, "", "Mon"), schedule(2, true, "09:00", ""), schedule(3, false, "09:00", "Mon")];
    assert_eq!(next_scheduled_run(&schedules, dt(2024, 1, 1, 10, 0)), None);
}

#[test]
fn garden_run_stops_when_cancelled() {
    let mut run = GardenRun::new(7, 100, 30);
    assert_eq!(run.duration_secs, 30);
    assert!(run.needs_tick());
    run.tick(EventPoll::Current("in_progress".to_string()));
    run.tick(EventPoll::Failed);
    assert!(run.needs_tick());
    assert_eq!(run.elapsed, 2);
    run.tick(EventPoll::Current("cancelled".to_string()));
    assert!(!run.needs_tick());
    assert_eq!(run.terminal_status(), GardenEventStatus::Cancelled);
}

#[test]
fn garden_run_stops_when_event_vanishes() {
    let mut run = GardenRun::new(7, 5, 30);
    run.tick(EventPoll::Vanished);
    assert!(!run.needs_tick());
    assert_eq!(run.terminal_status(), GardenEventStatus::Cancelled);
}

#[test]
fn garden_run_completes_after_its_duration() {
    let mut run = GardenRun::new(7, 2, 30);
    let mut ticks = 0;
    while run.needs_tick() {
        run.tick(EventPoll::Current("in_progress".to_string()));
        ticks += 1;
    }
    assert_eq!(ticks, 2);
    assert_eq!(run.terminal_status(), GardenEventStatus::Completed);
    let idle = GardenRun::new(8, -3, 30);
    assert!(!idle.needs_tick());
    assert_eq!(idle.terminal_status(), GardenEventStatus::Completed);
}

#[test]
fn due_events_are_todays_past_start_times() {
    let schedules = vec![
        schedule(1, true, "06:00,18:30,12:30", "Mon"),
        schedule(2, true, "07:00", "Tue"),
        schedule(3, false, "07:00", "Mon"),
    ];
    let dry = PrecipReading { available: true, actively_raining: false, meets_threshold: false };
    let rows = due_garden_events(&schedules, dt(2024, 1, 1, 12, 30), &dry);
    assert_eq!(rows.len(), 2);
    assert_eq!(rows[0].scheduled_for, dt(2024, 1, 1, 6, 0));
    assert_eq!(rows[1].scheduled_for, dt(2024, 1, 1, 12, 30));
    for r in &rows {
        assert_eq!(r.schedule_id, Some(1));
        assert_eq!(r.status, "queued");
        assert_eq!(r.source, "scheduled");
        assert_eq!(r.duration_secs, 600);
        assert_eq!(r.schedule_name.as_deref(), Some("zone 1"));
    }
}

#[test]
fn due_events_in_the_rain_are_skipped() {
    let mut opted_out = schedule(4, true, "06:00", "Mon");
    opted_out.skip_on_rain = false;
    let schedules = vec![schedule(1, true, "06:00", "Mon"), opted_out];
    let wet = PrecipReading { available: true, actively_raining: true, meets_threshold: false };
    let rows = due_garden_events(&schedules, dt(2024, 1, 1, 9, 0), &wet);
    assert_eq!(rows.len(), 2);
    assert_eq!(rows[0].status, "skipped");
    assert_eq!(rows[1].status, "queued");
    let unavailable = PrecipReading::unavailable();
    let rows = due_garden_events(&schedules, dt(2024, 1, 1, 9, 0), &unavailable);
    assert_eq!(rows[0].status, "queued");
}

#[test]
fn client_lists_are_normalized_for_storage() {
    let times: Vec<String> = vec!["6:05".to_string(), "18:30:15".to_string()];
    assert_eq!(normalize_times(&times), Ok("06:05,18:30".to_string()));
    let bad: Vec<String> = vec!["06:00".to_string(), "noon".to_string(), "x".to_string()];
    assert_eq!(normalize_times(&bad), Err(1));
    assert_eq!(normalize_times(&vec![]), Ok(String::new()));
    let days: Vec<String> = vec!["monday".to_string(), "Fri".to_string()];
    assert_eq!(normalize_days(&days), Ok("Mon,Fri".to_string()));
    let bad_days: Vec<String> = vec!["Someday".to_string()];
    assert_eq!(normalize_days(&bad_days), Err(0));
}

#[test]
fn a_maximum_past_i32_ends_the_run_at_once() {
    let run = GardenRun::new(7, 5, u32::MAX);
    assert_eq!(run.duration_secs, -1);
    assert!(!run.needs_tick());
    assert_eq!(run.terminal_status(), GardenEventStatus::Completed);
}

#[test]
fn an_active_schedule_always_has_a_next_run_within_a_week() {
    for d in 1..=7 {
        let now = dt(2024, 1, d, 23, 59);
        for day in ["Mon", "Tue", "Wed", "Thu", "Fri", "Sat", "Sun"] {
            let s = schedule(1, true, "00:00", day);
            let (_, when) = next_scheduled_run(&[s], now).unwrap();
            assert!(when.date.days > now.date.days && when.date.days <= now.date.days + 7);
        }
    }
}

#[test]
fn weekdays_repeat_every_seven_days_from_a_monday() {
    let d = NaiveDate::from_ymd_opt(2026, 8, 31).unwrap().num_days_from_ce();
    assert_eq!(weekday_of_day(d), Some(Weekday::Mon));
    assert_eq!(weekday_of_day(1), Some(Weekday::Mon));
    assert_eq!(weekday_of_day(0), Some(Weekday::Sun));
    assert_eq!(weekday_of_day(d + 3), Some(Weekday::Thu));
}

#[test]
fn weekday_names_read_in_any_case() {
    assert_eq!(parse_days_csv("MONDAY,wEd,Thurs,sunday"), vec![Weekday::Mon, Weekday::Wed, Weekday::Sun]);
    assert_eq!(parse_days_csv("Mon,Tue,Wed,Thu,Fri,Sat,Sun").len(), 7);
}

#[test]
fn a_garden_run_opens_polls_closes_and_finishes() {
    let mut r = GardenRunner::start(3, Ok(true), 2, 30).unwrap().unwrap();
    assert_eq!(r.next(EventPoll::Failed), RunAction::OpenSolenoid);
    assert_eq!(r.next(EventPoll::Failed), RunAction::WaitAndPoll);
    assert_eq!(r.next(EventPoll::Current("in_progress".to_string())), RunAction::WaitAndPoll);
    assert_eq!(r.next(EventPoll::Failed), RunAction::CloseSolenoid);
    assert_eq!(r.next(EventPoll::Failed), RunAction::Finish(GardenEventStatus::Completed));
    assert_eq!(r.next(EventPoll::Failed), RunAction::Done);

    let mut c = GardenRunner::start(3, Ok(true), 60, 30).unwrap().unwrap();
    assert_eq!(c.next(EventPoll::Failed), RunAction::OpenSolenoid);
    assert_eq!(c.next(EventPoll::Failed), RunAction::WaitAndPoll);
    assert_eq!(c.next(EventPoll::Current("cancelled".to_string())), RunAction::CloseSolenoid);
    assert_eq!(c.next(EventPoll::Failed), RunAction::Finish(GardenEventStatus::Cancelled));

    assert!(GardenRunner::start(3, Ok(false), 60, 30).unwrap().is_none());
    assert_eq!(
        GardenRunner::start(3, Err("A garden event is already in progress".to_string()), 60, 30).err(),
        Some("A garden event is already in progress".to_string())
    );
}
