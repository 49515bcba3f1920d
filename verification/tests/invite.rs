use chrono::{Datelike, Duration, NaiveDate, NaiveDateTime, Timelike};

use rpsump::calendar::{Date, DateTime, Time};
use rpsump::repository::models::invite::Invite;

fn to_dt(t: NaiveDateTime) -> DateTime {
    DateTime {
        date: Date { days: t.date().num_days_from_ce() },
        time: Time { secs: t.time().num_seconds_from_midnight(), nanos: t.time().nanosecond() },
    }
}

fn at(offset_secs: i64) -> DateTime {
    to_dt(
        NaiveDate::from_ymd_opt(2026, 8, 31).unwrap().and_hms_opt(12, 0, 0).unwrap()
            + Duration::seconds(offset_secs),
    )
}

fn invite(expires_at: DateTime, accepted_at: Option<DateTime>) -> Invite {
    Invite {
        id: 1,
        email: "invitee@test.local".into(),
        token: "token".into(),
        invited_by_user_id: 1,
        expires_at,
        accepted_at,
        accepted_by_user_id: accepted_at.map(|_| 2),
        created_at: at(0),
    }
}

#[test]
fn unexpired_and_unaccepted_is_redeemable() {
    assert!(invite(at(60), None).is_redeemable(at(0)));
}

#[test]
fn an_expired_invite_is_not_redeemable() {
    assert!(!invite(at(-1), None).is_redeemable(at(0)));
}

#[test]
fn expiry_is_exclusive_at_the_boundary() {
    assert!(!invite(at(0), None).is_redeemable(at(0)));
}

#[test]
fn an_accepted_invite_is_not_redeemable_even_if_unexpired() {
    assert!(!invite(at(60), Some(at(1))).is_redeemable(at(0)));
}

#[test]
fn expiry_compares_across_midnight() {
    // Expires one second after midnight the next day.
    assert!(invite(at(12 * 3600 + 1), None).is_redeemable(at(0)));
    assert!(!invite(at(12 * 3600 + 1), None).is_redeemable(at(12 * 3600 + 1)));
}
