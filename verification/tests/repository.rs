use chrono::{NaiveDate, NaiveDateTime};

use rpsump::calendar::{hours_before, Date, DateTime, Time};
use rpsump::repository::implementation::{
    begin_garden_event_decision, check_finish_status, consume_refresh_token, database_path,
    deleted_rows, garden_stop_targets, manual_garden_event, reset_password_check, tally_insert,
    verify_email_check, InsertOutcome, RefreshTokenError, ResetPasswordError, ResetWrite, TokenWrite,
    VerifyEmailError, VerifyWrite,
};
use rpsump::repository::models::garden_event::{GardenEvent, GardenEventSource, GardenEventStatus};
use rpsump::repository::models::irrigation_event::{IrrigationEvent, IrrigationEventStatus};
use rpsump::repository::models::irrigation_schedule::{
    day_names_to_csv, hoses_to_csv, schedule_columns, DayOfWeek,
};
use rpsump::repository::models::refresh_token::RefreshToken;
use rpsump::repository::models::user::User;

fn to_dt(t: NaiveDateTime) -> DateTime {
    DateTime {
        date: Date { days: chrono::Datelike::num_days_from_ce(&t) },
        time: Time {
            secs: chrono::Timelike::num_seconds_from_midnight(&t),
            nanos: chrono::Timelike::nanosecond(&t),
        },
    }
}

fn at(d: u32, h: u32) -> DateTime {
    to_dt(NaiveDate::from_ymd_opt(2024, 5, d).unwrap().and_hms_opt(h, 0, 0).unwrap())
}

fn event(id: i32, status: &str) -> GardenEvent {
    GardenEvent {
        id,
        schedule_id: Some(1),
        source: "scheduled".to_string(),
        status: status.to_string(),
        scheduled_for: at(1, 6),
        duration_secs: 60,
        start_time: None,
        end_time: None,
        created_at: at(1, 5),
        schedule_name: Some("beds".to_string()),
    }
}

fn token(revoked: bool, expires_at: DateTime) -> RefreshToken {
    RefreshToken {
        id: 9,
        user_id: 3,
        token: "SECRET-REDACTED".to_string(),
        expires_at,
        revoked_at: if revoked { Some(at(1, 0)) } else { None },
        created_at: at(1, 0),
    }
}

fn user(verified: bool, expires_at: Option<DateTime>) -> User {
    User {
        id: 3,
        email: "gardener@example.com".to_string(),
        email_verification_token: Some("abc".to_string()),
        email_verification_token_expires_at: expires_at,
        email_verified_at: if verified { Some(at(1, 0)) } else { None },
        password_hash: "hash".to_string(),
        password_reset_token: Some("def".to_string()),
        password_reset_token_expires_at: expires_at,
        created_at: at(1, 0),
        updated_at: at(1, 0),
    }
}

#[test]
fn a_valid_refresh_token_is_consumed_once() {
    let t = token(false, at(10, 0));
    let (result, write) = consume_refresh_token(&Some(t), at(2, 0));
    assert!(matches!(result, Ok(3)));
    assert_eq!(write, TokenWrite::RevokeToken(9));
    let reused = token(true, at(10, 0));
    let (result, write) = consume_refresh_token(&Some(reused), at(3, 0));
    assert!(matches!(result, Err(RefreshTokenError::TokenRevoked)));
    assert_eq!(write, TokenWrite::RevokeAllForUser(3));
}

#[test]
fn expired_and_unknown_refresh_tokens_are_refused() {
    let (result, write) = consume_refresh_token(&Some(token(false, at(2, 0))), at(2, 1));
    assert!(matches!(result, Err(RefreshTokenError::TokenExpired)));
    assert_eq!(write, TokenWrite::Nothing);
    let (result, write) = consume_refresh_token(&None, at(2, 1));
    assert!(matches!(result, Err(RefreshTokenError::InvalidToken)));
    assert_eq!(write, TokenWrite::Nothing);
    let (result, _) = consume_refresh_token(&Some(token(false, at(2, 1))), at(2, 1));
    assert!(matches!(result, Ok(3)));
}

#[test]
fn password_resets_need_a_live_token() {
    let hash = || Ok::<String, String>("new-hash".to_string());
    let (r, w) = reset_password_check(&None, hash(), at(2, 0));
    assert!(matches!(r, Err(ResetPasswordError::InvalidToken)));
    assert!(matches!(w, ResetWrite::Nothing));
    let u = user(false, Some(at(2, 0)));
    let (r, w) = reset_password_check(&Some(u), hash(), at(2, 1));
    assert!(matches!(r, Err(ResetPasswordError::TokenExpired)));
    assert!(matches!(w, ResetWrite::Nothing));
    let u = user(false, Some(at(2, 0)));
    let (r, w) = reset_password_check(&Some(u), Err("too short".to_string()), at(1, 0));
    assert!(matches!(r, Err(ResetPasswordError::InvalidPassword(ref m)) if m == "too short"));
    assert!(matches!(w, ResetWrite::Nothing));
    let u = user(false, Some(at(2, 0)));
    let (r, w) = reset_password_check(&Some(u), hash(), at(2, 0));
    assert!(r.is_ok());
    match w {
        ResetWrite::SetPassword { email, password_hash } => {
            assert_eq!(email, "gardener@example.com");
            assert_eq!(password_hash, "new-hash");
        }
        ResetWrite::Nothing => panic!("a successful reset writes the new password"),
    }
}

#[test]
fn email_verification_is_judged_in_order() {
    let (r, w) = verify_email_check(&None, "abc", at(2, 0));
    assert!(matches!(r, Err(VerifyEmailError::EmailNotFound)));
    assert!(matches!(w, VerifyWrite::Nothing));
    let u = user(true, None);
    assert!(matches!(verify_email_check(&Some(u), "abc", at(2, 0)).0, Err(VerifyEmailError::EmailAlreadyVerified)));
    let u = user(false, Some(at(1, 23)));
    assert!(matches!(verify_email_check(&Some(u), "abc", at(2, 0)).0, Err(VerifyEmailError::TokenExpired)));
    let u = user(false, Some(at(3, 0)));
    let (r, w) = verify_email_check(&Some(u), "abc", at(2, 0));
    assert!(r.is_ok());
    match w {
        VerifyWrite::MarkVerified { token, at: when } => {
            assert_eq!(token, "abc");
            assert_eq!(when, at(2, 0));
        }
        VerifyWrite::Nothing => panic!("a successful verification marks the address"),
    }
}

#[test]
fn stopping_the_garden_cancels_running_and_queued_events() {
    let events = vec![
        event(5, "queued"),
        event(4, "completed"),
        event(3, "in_progress"),
        event(2, "skipped"),
        event(1, "bogus"),
    ];
    assert_eq!(garden_stop_targets(&events), vec![5, 3]);
    assert!(garden_stop_targets(&[]).is_empty());
}

#[test]
fn manual_runs_do_not_stack_up() {
    let busy = vec![event(1, "completed"), event(2, "queued")];
    assert!(manual_garden_event(&busy, 300, at(2, 7)).is_none());
    let idle = vec![event(1, "completed"), event(2, "cancelled")];
    let e = manual_garden_event(&idle, 300, at(2, 7)).unwrap();
    assert_eq!(e.schedule_id, None);
    assert_eq!(e.source, "manual");
    assert_eq!(e.status, "queued");
    assert_eq!(e.scheduled_for, at(2, 7));
    assert_eq!(e.duration_secs, 300);
    assert_eq!(e.schedule_name, None);
}

#[test]
fn only_a_terminal_status_finishes_a_run() {
    assert!(check_finish_status(GardenEventStatus::Completed).is_ok());
    assert!(check_finish_status(GardenEventStatus::Cancelled).is_ok());
    assert_eq!(
        check_finish_status(GardenEventStatus::Queued).unwrap_err(),
        "finish_garden_event requires a terminal status (completed or cancelled)"
    );
    assert!(check_finish_status(GardenEventStatus::Skipped).is_err());
}

#[test]
fn a_run_begins_only_from_the_queue() {
    assert_eq!(
        begin_garden_event_decision(true, Some(GardenEventStatus::Queued)).unwrap_err(),
        "A garden event is already in progress"
    );
    assert_eq!(begin_garden_event_decision(false, Some(GardenEventStatus::Queued)), Ok(true));
    assert_eq!(begin_garden_event_decision(false, Some(GardenEventStatus::Cancelled)), Ok(false));
    assert_eq!(begin_garden_event_decision(false, None), Ok(false));
}

#[test]
fn inserts_are_tallied() {
    assert_eq!(tally_insert(2, InsertOutcome::Inserted(1)), Ok(3));
    assert_eq!(tally_insert(2, InsertOutcome::Duplicate), Ok(2));
    assert_eq!(tally_insert(2, InsertOutcome::Failed("locked".to_string())), Err("locked".to_string()));
    assert_eq!(deleted_rows(0), None);
    assert_eq!(deleted_rows(1), Some(1));
    assert_eq!(database_path(None), ":memory:");
    assert_eq!(database_path(Some("hydro.db".to_string())), "hydro.db");
}

#[test]
fn statuses_and_sources_read_back_their_text() {
    for s in [
        GardenEventStatus::Queued,
        GardenEventStatus::InProgress,
        GardenEventStatus::Completed,
        GardenEventStatus::Cancelled,
        GardenEventStatus::Skipped,
    ] {
        assert_eq!(GardenEventStatus::from_str(&s.to_string()), Ok(s));
    }
    assert_eq!(GardenEventStatus::InProgress.as_str(), "in_progress");
    assert_eq!(
        GardenEventStatus::from_str("done").unwrap_err(),
        "unknown garden event status: done"
    );
    assert_eq!(GardenEventSource::from_str("manual"), Ok(GardenEventSource::Manual));
    assert_eq!(GardenEventSource::Scheduled.to_string(), "scheduled");
    assert!(GardenEventSource::from_str("Manual").is_err());
    assert_eq!(IrrigationEventStatus::InProgress.as_str(), "in_progress");
}

#[test]
fn irrigation_schedule_columns_are_comma_separated() {
    assert_eq!(hoses_to_csv(&[1, 2, -3]), "1,2,-3");
    assert_eq!(hoses_to_csv(&[]), "");
    assert_eq!(day_names_to_csv(&[DayOfWeek::Monday, DayOfWeek::Sunday]), "Monday,Sunday");
    let (hoses, days) = schedule_columns(&[4], &[DayOfWeek::Friday]);
    assert_eq!((hoses.as_str(), days.as_str()), ("4", "Friday"));
}

fn irrigation(end_time: Option<DateTime>) -> IrrigationEvent {
    IrrigationEvent {
        id: 1,
        hose_id: 2,
        created_at: at(1, 0),
        end_time,
        status: "completed".to_string(),
        schedule_id: 1,
    }
}

#[test]
fn completed_before_compares_with_the_cutoff() {
    let now = at(2, 12);
    assert_eq!(hours_before(&now, 3), Some(at(2, 9)));
    assert!(irrigation(Some(at(2, 8))).completed_before(3, now));
    assert!(!irrigation(Some(at(2, 9))).completed_before(3, now));
    assert!(!irrigation(None).completed_before(3, now));
    assert_eq!(irrigation(Some(at(2, 8))).checked_completed_before(i64::MAX, now), None);
    assert_eq!(irrigation(Some(at(2, 8))).checked_completed_before(26, now), Some(false));
}

fn timed(status: &str, start: Option<DateTime>, end: Option<DateTime>, duration_secs: i32) -> GardenEvent {
    GardenEvent { start_time: start, end_time: end, duration_secs, ..event(1, status) }
}

#[test]
fn watered_and_skipped_seconds_never_overlap() {
    let now = at(2, 12);
    let done = timed("completed", Some(at(2, 6)), Some(at(2, 7)), 600);
    assert_eq!(done.watered_secs(now), 3600);
    assert_eq!(done.skipped_secs(), 0);
    let done_untimed = timed("completed", None, None, 600);
    assert_eq!(done_untimed.watered_secs(now), 600);
    let cancelled_untimed = timed("cancelled", None, None, 600);
    assert_eq!(cancelled_untimed.watered_secs(now), 0);
    let running = timed("in_progress", Some(at(2, 11)), None, 600);
    assert_eq!(running.watered_secs(now), 600);
    let just_started = timed("in_progress", Some(now), None, 600);
    assert_eq!(just_started.watered_secs(now), 0);
    let skipped = timed("skipped", None, None, 900);
    assert_eq!(skipped.watered_secs(now), 0);
    assert_eq!(skipped.skipped_secs(), 900);
    assert_eq!(timed("skipped", None, None, -5).skipped_secs(), 0);
    assert_eq!(timed("queued", None, None, 900).watered_secs(now), 0);
    assert_eq!(running.occurred_at(), at(2, 11));
    assert_eq!(skipped.occurred_at(), at(1, 6));
}

#[test]
fn stored_hose_columns_split_back_into_their_numbers() {
    let csv = hoses_to_csv(&[3, -14, 250]);
    let fields: Vec<&str> = csv.split(',').collect();
    assert_eq!(fields, vec!["3", "-14", "250"]);
}
