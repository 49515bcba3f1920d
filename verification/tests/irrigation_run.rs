use std::time::{Duration, SystemTime};

use rpsump::hydro::schedule::run::{
    event_hose_pin, irrigation_steps, job_complete, job_done, next_event_steps, HoseValve,
    IrrigationStep,
};
use rpsump::repository::models::irrigation_event::IrrigationEvent;
use rpsump::sump::schedule::run::{
    check_job_duration, choose_irrigation_valve_pin, job_complete as sump_job_complete, job_done_secs,
    start_irrigation_steps,
};
use rpsump::calendar::{Date, DateTime, Time};
use rpsump::hydro::gpio::Level;

#[test]
fn test_job_complete() {
    // Set up test data
    let duration = (60u64, 0u32);
    let earlier_start_time = SystemTime::now() - Duration::from_secs(90);
    let later_start_time = SystemTime::now() - Duration::from_secs(30);

    // Call the function being tested
    let shorter_result = job_complete(duration, later_start_time).0;
    let longer_result = job_complete(duration, earlier_start_time).0;
    assert_eq!(shorter_result, false);
    assert_eq!(longer_result, true);
}

#[test]
fn job_done_compares_seconds_then_nanoseconds() {
    assert!(job_done(Some((60, 0)), (60, 0)));
    assert!(!job_done(Some((59, 999_999_999)), (60, 0)));
    assert!(job_done(Some((60, 5)), (60, 4)));
    assert!(!job_done(Some((60, 3)), (60, 4)));
    // A clock that cannot tell counts as done.
    assert!(job_done(None, (3600, 0)));
}

#[test]
fn job_in_the_future_counts_as_done() {
    let start = SystemTime::now() + Duration::from_secs(3600);
    assert!(job_complete((10, 0), start).0);
    assert!(sump_job_complete(10, start).0);
    assert!(job_complete((0, 0), SystemTime::now()).0);
    assert!(sump_job_complete(0, SystemTime::now()).0);
}

#[test]
fn sump_job_done_by_whole_seconds() {
    assert!(job_done_secs(Some((10, 0)), 10));
    assert!(!job_done_secs(Some((9, 999_999_999)), 10));
    assert!(job_done_secs(Some((0, 0)), -1));
    assert!(job_done_secs(None, 10));
    let started = SystemTime::now() - Duration::from_secs(30);
    assert!(sump_job_complete(20, started).0);
    assert!(!sump_job_complete(50, started).0);
}

fn event(hose_id: i32) -> IrrigationEvent {
    let t = DateTime { date: Date { days: 738000 }, time: Time { secs: 0, nanos: 0 } };
    IrrigationEvent { id: 1, hose_id, created_at: t, end_time: None, status: "completed".to_string(), schedule_id: 1 }
}

#[test]
fn test_event_hose_pin() {
    assert_eq!(event_hose_pin(&event(1)), Ok(HoseValve::Valve1));
    assert_eq!(event_hose_pin(&event(2)), Ok(HoseValve::Valve2));
    assert_eq!(event_hose_pin(&event(3)), Ok(HoseValve::Valve3));
    assert_eq!(event_hose_pin(&event(4)), Ok(HoseValve::Valve4));
    assert_eq!(event_hose_pin(&event(5)), Err("Invalid hose number provided".to_string()));
    assert_eq!(event_hose_pin(&event(0)), Err("Invalid hose number provided".to_string()));
}

#[test]
fn valve_choice_and_duration_limit() {
    assert_eq!(choose_irrigation_valve_pin(3), Ok(HoseValve::Valve3));
    assert_eq!(choose_irrigation_valve_pin(-1), Err("Invalid hose number provided".to_string()));
    assert_eq!(check_job_duration(60), Ok(()));
    assert_eq!(check_job_duration(61), Err("Schedule duration is too long".to_string()));
}

#[test]
fn irrigation_opens_the_valve_before_the_pump_runs() {
    assert_eq!(
        irrigation_steps(&event(2)).unwrap(),
        vec![
            IrrigationStep::OpenValve(HoseValve::Valve2),
            IrrigationStep::PumpOn,
            IrrigationStep::WaitForJob,
            IrrigationStep::PumpOff,
            IrrigationStep::CloseValve(HoseValve::Valve2),
        ]
    );
    assert_eq!(irrigation_steps(&event(9)), Err("Invalid hose number provided".to_string()));
}

#[test]
fn sump_jobs_over_the_limit_are_refused_after_starting() {
    let (steps, end) = start_irrigation_steps(4, 30, Level::High);
    assert_eq!(steps.len(), 5);
    assert_eq!(steps[0], IrrigationStep::OpenValve(HoseValve::Valve4));
    assert_eq!(end, Ok(()));
    let (steps, end) = start_irrigation_steps(1, 61, Level::High);
    assert_eq!(steps, vec![IrrigationStep::OpenValve(HoseValve::Valve1), IrrigationStep::PumpOn]);
    assert_eq!(end, Err("Schedule duration is too long".to_string()));
    let (steps, end) = start_irrigation_steps(1, 30, Level::Low);
    assert!(steps.is_empty());
    assert_eq!(end, Err("Water is too low to start irrigation.".to_string()));
    let (steps, end) = start_irrigation_steps(7, 30, Level::High);
    assert!(steps.is_empty());
    assert_eq!(end, Err("Invalid hose number provided".to_string()));
}

#[test]
fn low_water_starts_no_irrigation() {
    assert_eq!(next_event_steps(&event(2), Level::Low), Ok(vec![]));
    assert_eq!(next_event_steps(&event(2), Level::High).unwrap().len(), 5);
    assert_eq!(next_event_steps(&event(9), Level::High), Err("Invalid hose number provided".to_string()));
}
