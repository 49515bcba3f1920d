use chrono::{NaiveDate, NaiveDateTime};

use rpsump::calendar::{parse_datetime, Date, DateTime, Time};
use rpsump::hydro::gpio::Level;
use rpsump::sump::control::{pump_event, update_high_sensor, update_low_sensor, PumpChange};
use rpsump::sump::debounce::SensorDebouncer;
use rpsump::sump::schedule::{
    due_schedules, is_schedule_running, schedule_tick, try_schedule_tick, Status,
};
use rpsump::sump::sensor::{
    deserialize_level, handle_sump_message, level_from_message, serialize_level, PinState,
};

fn to_dt(t: NaiveDateTime) -> DateTime {
    DateTime {
        date: Date { days: chrono::Datelike::num_days_from_ce(&t) },
        time: Time {
            secs: chrono::Timelike::num_seconds_from_midnight(&t),
            nanos: chrono::Timelike::nanosecond(&t),
        },
    }
}

/// Monday 4 January 2021 at `h:m`.
fn monday(h: u32, m: u32) -> DateTime {
    to_dt(NaiveDate::from_ymd_opt(2021, 1, 4).unwrap().and_hms_opt(h, m, 0).unwrap())
}

fn status(id: i32, days: &str, start: &str, active: bool, event_status: &str) -> Status {
    Status {
        schedule_id: id,
        schedule_days_of_week: days.to_string(),
        schedule_duration: 10,
        schedule_start_time: start.to_string(),
        schedule_status: active,
        event_id: id,
        event_hose_id: 1,
        event_status: event_status.to_string(),
        event_created_at: "2021-01-01T00:00:00".to_string(),
        event_end_time: "2021-01-01T00:00:00".to_string(),
    }
}

fn ids(v: &[Status]) -> Vec<i32> {
    v.iter().map(|s| s.schedule_id).collect()
}

#[test]
fn due_schedules_are_active_for_today_and_past_their_start() {
    let list = vec![
        status(1, "Monday,Tuesday", "2021-01-04T08:00:00", true, "completed"),
        status(2, "Monday", "2021-01-04T06:00:00", true, "completed"),
        status(3, "Tuesday", "2021-01-04T05:00:00", true, "completed"),
        status(4, "Monday", "2021-01-04T05:00:00", false, "completed"),
        status(5, "Monday", "2021-01-04T11:00:00", true, "completed"),
        status(6, "Mon", "2021-01-04T06:00:00", true, "completed"),
    ];
    let due = due_schedules(list, monday(10, 0));
    assert_eq!(ids(&due), vec![2, 6, 1]);
}

#[test]
fn no_schedule_starts_while_one_is_in_progress() {
    let list = vec![
        status(1, "Monday", "2021-01-04T06:00:00", true, "completed"),
        status(2, "Monday", "2021-01-04T07:00:00", true, "in_progress"),
    ];
    assert_eq!(is_schedule_running(&list), Ok(true));
    assert!(schedule_tick(list, monday(10, 0)).unwrap().is_empty());
}

#[test]
fn an_unreadable_creation_time_is_an_error() {
    let mut running = status(2, "Monday", "2021-01-04T07:00:00", true, "in_progress");
    running.event_created_at = "yesterday".to_string();
    let list = vec![running];
    let err = is_schedule_running(&list).unwrap_err();
    assert!(err.starts_with("Error parsing created_at: "));
    assert!(err.len() > "Error parsing created_at: ".len());
    assert_eq!(schedule_tick(list, monday(10, 0)).unwrap_err(), err);
}

#[test]
fn a_tick_with_nothing_running_picks_the_due_schedules() {
    let list = vec![
        status(1, "Monday", "2021-01-04T09:00:00", true, "completed"),
        status(2, "Monday", "2021-01-04T07:00:00", true, "queued"),
    ];
    assert_eq!(is_schedule_running(&list), Ok(false));
    let picked = try_schedule_tick(list, monday(10, 0)).unwrap().unwrap();
    assert_eq!(ids(&picked), vec![2, 1]);
}

#[test]
fn an_unreadable_start_time_for_today_is_refused() {
    let list = vec![status(1, "Monday", "06:00", true, "completed")];
    assert!(try_schedule_tick(list, monday(10, 0)).is_none());
    let other_day = vec![status(1, "Tuesday", "06:00", true, "completed")];
    assert!(try_schedule_tick(other_day, monday(10, 0)).unwrap().unwrap().is_empty());
}

#[test]
fn datetimes_read_in_chronos_format() {
    let dt = parse_datetime("2021-01-04T10:00:00").unwrap();
    assert_eq!(dt, monday(10, 0));
    assert!(parse_datetime("2021-01-04 10:00:00").is_err());
}

#[test]
fn sensor_levels_round_trip_through_their_numbers() {
    assert_eq!(serialize_level(&Level::Low), 0);
    assert_eq!(serialize_level(&Level::High), 1);
    assert_eq!(deserialize_level(0), Ok(Level::Low));
    assert_eq!(deserialize_level(1), Ok(Level::High));
    assert_eq!(deserialize_level(2), Err("invalid Level value".to_string()));
    assert_eq!(deserialize_level(serialize_level(&Level::High)), Ok(Level::High));
}

#[test]
fn sump_messages_set_the_high_sensor() {
    assert_eq!(level_from_message("high"), Level::High);
    assert_eq!(level_from_message("low"), Level::Low);
    assert_eq!(level_from_message("HIGH"), Level::Low);
    let mut state = PinState { high_sensor: Level::Low, low_sensor: Level::High };
    handle_sump_message(&mut state, "high");
    assert_eq!(state, PinState { high_sensor: Level::High, low_sensor: Level::High });
    handle_sump_message(&mut state, "low");
    assert_eq!(state.high_sensor, Level::Low);
}

#[test]
fn settled_levels_drive_the_pump() {
    let mut state = PinState { high_sensor: Level::Low, low_sensor: Level::Low };
    assert_eq!(update_high_sensor(&mut state, Level::High), Some(PumpChange::On));
    assert_eq!(state.high_sensor, Level::High);
    assert_eq!(update_high_sensor(&mut state, Level::Low), None);
    assert_eq!(update_low_sensor(&mut state, Level::Low, 30), Some(PumpChange::OffAfter(30)));
    assert_eq!(update_low_sensor(&mut state, Level::High, 30), None);
    assert_eq!(state, PinState { high_sensor: Level::Low, low_sensor: Level::High });
    let e = pump_event(PumpChange::On);
    assert_eq!((e.kind.as_str(), e.info.as_str()), ("pump on", "reservoir full"));
    let e = pump_event(PumpChange::OffAfter(30));
    assert_eq!((e.kind.as_str(), e.info.as_str()), ("pump off", "reservoir empty"));
}

#[test]
fn sensor_debouncer_moves_its_deadline_only_on_change() {
    let mut d = SensorDebouncer::new(100, Level::Low, 1000);
    assert_eq!(d.deadline, 1100);
    d.reset_deadline(Level::Low, 1050);
    assert_eq!(d.deadline, 1100);
    d.reset_deadline(Level::High, 1050);
    assert_eq!(d.deadline, 1150);
    assert!(!d.elapsed(1149));
    assert!(d.elapsed(1150));
}
