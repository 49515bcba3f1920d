use chrono::{NaiveDate, NaiveDateTime};

use rpsump::calendar::{Date, DateTime, Time};
use rpsump::hydro::schedule::check::{due_statuses, next_due_status};
use rpsump::hydro::schedule::ScheduleStatus;
use rpsump::repository::models::irrigation_event::IrrigationEvent;
use rpsump::repository::models::irrigation_schedule::IrrigationSchedule;

fn to_dt(t: NaiveDateTime) -> DateTime {
    DateTime {
        date: Date { days: chrono::Datelike::num_days_from_ce(&t) },
        time: Time {
            secs: chrono::Timelike::num_seconds_from_midnight(&t),
            nanos: chrono::Timelike::nanosecond(&t),
        },
    }
}

/// Friday 5 January 2024 at `h:00`.
fn friday(h: u32) -> DateTime {
    to_dt(NaiveDate::from_ymd_opt(2024, 1, 5).unwrap().and_hms_opt(h, 0, 0).unwrap())
}

fn schedule(id: i32, days: &str, start_hour: u32) -> IrrigationSchedule {
    IrrigationSchedule {
        id,
        active: true,
        name: format!("schedule {id}"),
        duration: 10,
        start_time: Time { secs: start_hour * 3600, nanos: 0 },
        days_of_week: days.to_string(),
        hoses: "1".to_string(),
        created_at: friday(0),
        updated_at: friday(0),
    }
}

fn last_event(created_at: DateTime, status: &str) -> IrrigationEvent {
    IrrigationEvent {
        id: 1,
        hose_id: 1,
        created_at,
        end_time: None,
        status: status.to_string(),
        schedule_id: 1,
    }
}

fn statuses() -> Vec<ScheduleStatus> {
    vec![
        ScheduleStatus {
            schedule: schedule(1, "Monday,Tuesday,Wednesday,Thursday,Friday", 14),
            last_event: None,
        },
        ScheduleStatus {
            schedule: schedule(2, "Monday,Tuesday,Wednesday,Thursday,Friday,Saturday,Sunday", 8),
            last_event: None,
        },
        ScheduleStatus {
            schedule: schedule(3, "Friday", 6),
            last_event: Some(last_event(friday(19), "Completed")),
        },
        ScheduleStatus { schedule: schedule(4, "Saturday", 6), last_event: None },
        ScheduleStatus { schedule: schedule(5, "Friday", 22), last_event: None },
    ]
}

fn ids(v: &[ScheduleStatus]) -> Vec<i32> {
    v.iter().map(|s| s.schedule.id).collect()
}

#[test]
fn test_due_statuses() {
    let due = due_statuses(statuses(), friday(21));
    assert_eq!(ids(&due), vec![2, 1]);
}

#[test]
fn an_event_from_an_earlier_day_leaves_the_schedule_due() {
    for status in ["queued", "completed", "in_progress"] {
        let mut list = statuses();
        list[2].last_event = Some(last_event(friday(19), status));
        list[2].last_event.as_mut().unwrap().created_at.date.days -= 1;
        let due = due_statuses(list, friday(21));
        assert_eq!(ids(&due), vec![3, 2, 1]);
    }
}

#[test]
fn the_next_due_status_is_the_earliest_start() {
    let next = next_due_status(statuses(), friday(21));
    assert_eq!(next.schedule.id, 2);
}
