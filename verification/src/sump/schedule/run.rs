//! Running a scheduled irrigation job on the sump's irrigation outputs.
use vstd::prelude::*;

use crate::clock::{elapsed_since, span_at_least, span_ge};
use crate::hydro::gpio::Level;
use crate::hydro::schedule::run::{
    apply_steps, hose_valve, irrigation_plan, lemma_plan_keeps_pump_safe, pump_safe, spec_hose_valve,
    HoseValve, IrrigationStep, Outputs,
};

verus! {

/// The valve that serves hose `hose_id`; hoses are numbered 1 to 4.
pub fn choose_irrigation_valve_pin(hose_id: i32) -> (r: Result<HoseValve, String>)
    ensures
        match r {
            Ok(v) => spec_hose_valve(hose_id) == Some(v),
            Err(m) => spec_hose_valve(hose_id) is None && m@ == "Invalid hose number provided"@,
        },
{
    hose_valve(hose_id)
}

/// A job of `duration` whole seconds that has run for `elapsed` (seconds,
/// nanoseconds) is done once that reaches the duration. When the clock cannot
/// tell (`None`) or the duration is negative, it counts as done.
pub open spec fn spec_job_done_secs(elapsed: Option<(u64, u32)>, duration: i32) -> bool {
    match elapsed {
        None => true,
        Some(e) => duration < 0 || span_at_least(e, (duration as u64, 0u32)),
    }
}

pub fn job_done_secs(elapsed: Option<(u64, u32)>, duration: i32) -> (r: bool)
    ensures
        r == spec_job_done_secs(elapsed, duration),
{
    match elapsed {
        None => true,
        Some(e) => {
            if duration < 0 {
                true
            } else {
                span_ge(e, (duration as u64, 0))
            }
        },
    }
}

/// Whether a job of `duration` seconds started at `start_time` is done by
/// now, as `job_done_secs` judges the time elapsed by the system clock; with
/// it, the clock reading it judged by. A job of no time is done whatever the
/// clock says.
pub fn job_complete(duration: i32, start_time: std::time::SystemTime) -> (r: (bool, Ghost<Option<(u64, u32)>>))
    ensures
        r.0 == spec_job_done_secs(r.1@, duration),
        r.1@ matches Some(e) ==> e.1 < 1_000_000_000,
        duration <= 0 ==> r.0,
{
    let elapsed = elapsed_since(&start_time);
    (job_done_secs(elapsed, duration), Ghost(elapsed))
}

/// The longest irrigation job, in seconds, that the sump will start.
pub const MAX_JOB_SECS: i32 = 60;

/// A job longer than the limit is refused before the pump starts.
pub fn check_job_duration(duration: i32) -> (r: Result<(), String>)
    ensures
        (r is Ok) == (duration <= MAX_JOB_SECS),
        r matches Err(m) ==> m@ == "Schedule duration is too long"@,
{
    if duration > MAX_JOB_SECS {
        Err(String::from_str("Schedule duration is too long"))
    } else {
        Ok(())
    }
}

/// What starting a sump irrigation job does: the steps it takes on the
/// outputs, in order, and how it ends. Low water in the irrigation reservoir
/// or a hose without a valve is refused before anything is switched. A job
/// over the limit is refused only once its valve is open and the pump
/// started, and those are left as they are; otherwise the job runs its whole
/// course.
pub open spec fn start_plan(hose_id: i32, duration: i32, low_sensor: Level) -> (Seq<IrrigationStep>, Result<(), Seq<char>>) {
    if low_sensor == Level::Low {
        (Seq::empty(), Err("Water is too low to start irrigation."@))
    } else {
        match spec_hose_valve(hose_id) {
            None => (Seq::empty(), Err("Invalid hose number provided"@)),
            Some(v) => if duration > MAX_JOB_SECS {
                (seq![IrrigationStep::OpenValve(v), IrrigationStep::PumpOn], Err("Schedule duration is too long"@))
            } else {
                (irrigation_plan(v), Ok(()))
            },
        }
    }
}

/// The steps of a sump irrigation job on hose `hose_id` lasting `duration`
/// seconds, with the irrigation reservoir's low sensor reading `low_sensor`,
/// and how it ends.
pub fn start_irrigation_steps(hose_id: i32, duration: i32, low_sensor: Level) -> (r: (Vec<IrrigationStep>, Result<(), String>))
    ensures
        r.0@ == start_plan(hose_id, duration, low_sensor).0,
        match r.1 {
            Ok(()) => start_plan(hose_id, duration, low_sensor).1 is Ok,
            Err(m) => start_plan(hose_id, duration, low_sensor).1 == Err::<(), Seq<char>>(m@),
        },
{
    let mut steps: Vec<IrrigationStep> = Vec::new();
    if low_sensor == Level::Low {
        return (steps, Err(String::from_str("Water is too low to start irrigation.")));
    }
    let valve = match choose_irrigation_valve_pin(hose_id) {
        Ok(v) => v,
        Err(e) => {
            return (steps, Err(e));
        },
    };
    steps.push(IrrigationStep::OpenValve(valve));
    steps.push(IrrigationStep::PumpOn);
    match check_job_duration(duration) {
        Ok(()) => {},
        Err(e) => {
            assert(steps@ =~= seq![IrrigationStep::OpenValve(valve), IrrigationStep::PumpOn]);
            return (steps, Err(e));
        },
    }
    steps.push(IrrigationStep::WaitForJob);
    steps.push(IrrigationStep::PumpOff);
    steps.push(IrrigationStep::CloseValve(valve));
    assert(steps@ =~= irrigation_plan(valve));
    (steps, Ok(()))
}

/// However a sump job start ends, the pump never runs with its valve closed;
/// a start that ends well leaves the pump stopped and the valve closed.
pub proof fn lemma_start_plan_pump_safe(hose_id: i32, duration: i32, low_sensor: Level)
    ensures
        forall|k: int|
            0 <= k <= start_plan(hose_id, duration, low_sensor).0.len() ==> pump_safe(
                #[trigger] apply_steps(
                    Outputs { open_valve: None, pump_on: false },
                    start_plan(hose_id, duration, low_sensor).0.take(k),
                ),
            ),
        start_plan(hose_id, duration, low_sensor).1 is Ok ==> apply_steps(
            Outputs { open_valve: None, pump_on: false },
            start_plan(hose_id, duration, low_sensor).0,
        ) == (Outputs { open_valve: None, pump_on: false }),
{
    let rest = Outputs { open_valve: None, pump_on: false };
    let q = start_plan(hose_id, duration, low_sensor).0;
    if q.len() == 0 {
        assert forall|k: int| 0 <= k <= q.len() implies pump_safe(#[trigger] apply_steps(rest, q.take(k))) by {
            assert(q.take(k) =~= Seq::<IrrigationStep>::empty());
        }
    } else {
        let v = spec_hose_valve(hose_id)->0;
        lemma_plan_keeps_pump_safe(v);
        let p = irrigation_plan(v);
        if duration > MAX_JOB_SECS {
            assert forall|k: int| 0 <= k <= q.len() implies pump_safe(#[trigger] apply_steps(rest, q.take(k))) by {
                assert(q.take(k) =~= p.take(k));
            }
        } else {
            assert(p.take(5) =~= p);
        }
    }
}

} // verus!
