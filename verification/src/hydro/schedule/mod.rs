//! Irrigation schedules and the jobs they run.
use vstd::prelude::*;

use crate::repository::models::irrigation_event::IrrigationEvent;
use crate::repository::models::irrigation_schedule::IrrigationSchedule;
use crate::sort::Ranked;

pub mod check;
pub mod run;

verus! {

/// An irrigation schedule and its most recent event.
pub struct ScheduleStatus {
    pub schedule: IrrigationSchedule,
    pub last_event: Option<IrrigationEvent>,
}

/// Statuses rank by their schedule's start time.
impl Ranked for ScheduleStatus {
    open spec fn ranks_before(&self, other: &Self) -> bool {
        self.schedule.start_time.spec_before(other.schedule.start_time)
    }

    fn before(&self, other: &Self) -> (r: bool) {
        self.schedule.start_time.before(&other.schedule.start_time)
    }
}

} // verus!
