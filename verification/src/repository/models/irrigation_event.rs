//! Irrigation events: one row per run of a hose.
use vstd::prelude::*;

use crate::calendar::{chrono_hours_before, hours_before, DateTime};

verus! {

#[derive(Clone, Copy, Debug, PartialEq, Eq, Structural)]
pub enum IrrigationEventStatus {
    Cancelled,
    Completed,
    InProgress,
    Queued,
}

pub open spec fn irrigation_status_text(s: IrrigationEventStatus) -> Seq<char> {
    match s {
        IrrigationEventStatus::InProgress => "in_progress"@,
        IrrigationEventStatus::Completed => "completed"@,
        IrrigationEventStatus::Cancelled => "cancelled"@,
        IrrigationEventStatus::Queued => "queued"@,
    }
}

impl IrrigationEventStatus {
    /// The stored text of this status.
    pub fn as_str(&self) -> (s: &'static str)
        ensures
            s@ == irrigation_status_text(*self),
    {
        match self {
            IrrigationEventStatus::InProgress => "in_progress",
            IrrigationEventStatus::Completed => "completed",
            IrrigationEventStatus::Cancelled => "cancelled",
            IrrigationEventStatus::Queued => "queued",
        }
    }
}

pub struct IrrigationEvent {
    pub id: i32,
    pub hose_id: i32,
    pub created_at: DateTime,
    pub end_time: Option<DateTime>,
    pub status: String,
    pub schedule_id: i32,
}

pub struct NewIrrigationEvent {
    pub hose_id: i32,
    pub created_at: DateTime,
    pub end_time: Option<DateTime>,
    pub status: String,
    pub schedule_id: i32,
}

impl IrrigationEvent {
    /// The event ended before the cutoff `hours` hours before `now`. An event
    /// that has not ended has not completed.
    pub open spec fn spec_completed_before(self, hours: i64, now: DateTime) -> bool {
        match (self.end_time, chrono_hours_before(now, hours)) {
            (Some(end), Some(cutoff)) => end.spec_before(cutoff),
            _ => false,
        }
    }

    /// Whether the event ended more than `hours` hours before `now`.
    pub fn completed_before(&self, hours: i64, now: DateTime) -> (r: bool)
        requires
            now.wf(),
            chrono_hours_before(now, hours) is Some,
        ensures
            r == self.spec_completed_before(hours, now),
    {
        let cutoff = hours_before(&now, hours);
        match (&self.end_time, cutoff) {
            (Some(end), Some(c)) => end.before(&c),
            _ => false,
        }
    }

    /// Whether the event ended more than `hours` hours before `now`, or
    /// `None` when the cutoff falls outside what chrono can represent.
    pub fn checked_completed_before(&self, hours: i64, now: DateTime) -> (r: Option<bool>)
        requires
            now.wf(),
        ensures
            r is None <==> chrono_hours_before(now, hours) is None,
            r matches Some(b) ==> b == self.spec_completed_before(hours, now),
    {
        match hours_before(&now, hours) {
            Some(_) => Some(self.completed_before(hours, now)),
            None => None,
        }
    }
}

} // verus!
