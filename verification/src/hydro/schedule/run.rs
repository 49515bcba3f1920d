//! Running an irrigation job: which valve a hose opens, and when the job has
//! run long enough.
use vstd::prelude::*;

use crate::clock::{elapsed_since, span_at_least, span_ge};
use crate::hydro::gpio::Level;
use crate::repository::models::irrigation_event::IrrigationEvent;

verus! {

/// The irrigation valves, one per hose.
#[derive(Clone, Copy, Debug, PartialEq, Eq, Structural)]
pub enum HoseValve {
    Valve1,
    Valve2,
    Valve3,
    Valve4,
}

pub open spec fn spec_hose_valve(hose_id: i32) -> Option<HoseValve> {
    if hose_id == 1 {
        Some(HoseValve::Valve1)
    } else if hose_id == 2 {
        Some(HoseValve::Valve2)
    } else if hose_id == 3 {
        Some(HoseValve::Valve3)
    } else if hose_id == 4 {
        Some(HoseValve::Valve4)
    } else {
        None
    }
}

/// The valve that serves hose `hose_id`; hoses are numbered 1 to 4.
pub fn hose_valve(hose_id: i32) -> (r: Result<HoseValve, String>)
    ensures
        match r {
            Ok(v) => spec_hose_valve(hose_id) == Some(v),
            Err(m) => spec_hose_valve(hose_id) is None && m@ == "Invalid hose number provided"@,
        },
{
    if hose_id == 1 {
        Ok(HoseValve::Valve1)
    } else if hose_id == 2 {
        Ok(HoseValve::Valve2)
    } else if hose_id == 3 {
        Ok(HoseValve::Valve3)
    } else if hose_id == 4 {
        Ok(HoseValve::Valve4)
    } else {
        Err(String::from_str("Invalid hose number provided"))
    }
}

/// The valve that serves the event's hose.
pub fn event_hose_pin(event: &IrrigationEvent) -> (r: Result<HoseValve, String>)
    ensures
        match r {
            Ok(v) => spec_hose_valve(event.hose_id) == Some(v),
            Err(m) => spec_hose_valve(event.hose_id) is None && m@ == "Invalid hose number provided"@,
        },
{
    hose_valve(event.hose_id)
}

/// A job that has run for `elapsed` (seconds, nanoseconds) is done once that
/// reaches `duration`; when the clock cannot tell how long it has run
/// (`None`), it is treated as done so that a pump is never left running.
pub open spec fn spec_job_done(elapsed: Option<(u64, u32)>, duration: (u64, u32)) -> bool {
    match elapsed {
        None => true,
        Some(e) => span_at_least(e, duration),
    }
}

pub fn job_done(elapsed: Option<(u64, u32)>, duration: (u64, u32)) -> (r: bool)
    ensures
        r == spec_job_done(elapsed, duration),
{
    match elapsed {
        None => true,
        Some(e) => span_ge(e, duration),
    }
}

/// Whether a job started at `start_time` has run for `duration` (seconds,
/// nanoseconds) by now, as `job_done` judges the time elapsed by the system
/// clock; with it, the clock reading it judged by. A job of no time is done
/// whatever the clock says.
pub fn job_complete(duration: (u64, u32), start_time: std::time::SystemTime) -> (r: (bool, Ghost<Option<(u64, u32)>>))
    ensures
        r.0 == spec_job_done(r.1@, duration),
        r.1@ matches Some(e) ==> e.1 < 1_000_000_000,
        duration == (0u64, 0u32) ==> r.0,
{
    let elapsed = elapsed_since(&start_time);
    (job_done(elapsed, duration), Ghost(elapsed))
}

/// One step of an irrigation job on the outputs.
#[derive(Clone, Copy, Debug, PartialEq, Eq, Structural)]
pub enum IrrigationStep {
    OpenValve(HoseValve),
    PumpOn,
    /// Wait until the job has run its duration.
    WaitForJob,
    PumpOff,
    CloseValve(HoseValve),
}

/// The steps of a job on `valve`: open the valve, start the pump, wait out
/// the job, stop the pump, close the valve.
pub open spec fn irrigation_plan(valve: HoseValve) -> Seq<IrrigationStep> {
    seq![
        IrrigationStep::OpenValve(valve),
        IrrigationStep::PumpOn,
        IrrigationStep::WaitForJob,
        IrrigationStep::PumpOff,
        IrrigationStep::CloseValve(valve),
    ]
}

/// The steps of the job for `event`, or the error for a hose that has no
/// valve (then nothing is switched).
pub fn irrigation_steps(event: &IrrigationEvent) -> (r: Result<Vec<IrrigationStep>, String>)
    ensures
        match r {
            Ok(steps) => spec_hose_valve(event.hose_id) matches Some(v) && steps@ == irrigation_plan(v),
            Err(m) => spec_hose_valve(event.hose_id) is None && m@ == "Invalid hose number provided"@,
        },
{
    let valve = match event_hose_pin(event) {
        Ok(v) => v,
        Err(e) => {
            return Err(e);
        },
    };
    let steps = vec![
        IrrigationStep::OpenValve(valve),
        IrrigationStep::PumpOn,
        IrrigationStep::WaitForJob,
        IrrigationStep::PumpOff,
        IrrigationStep::CloseValve(valve),
    ];
    assert(steps@ =~= irrigation_plan(valve));
    Ok(steps)
}

/// Which valve is open and whether the pump runs.
pub struct Outputs {
    pub open_valve: Option<HoseValve>,
    pub pump_on: bool,
}

pub open spec fn apply_step(o: Outputs, s: IrrigationStep) -> Outputs {
    match s {
        IrrigationStep::OpenValve(v) => Outputs { open_valve: Some(v), ..o },
        IrrigationStep::PumpOn => Outputs { pump_on: true, ..o },
        IrrigationStep::WaitForJob => o,
        IrrigationStep::PumpOff => Outputs { pump_on: false, ..o },
        IrrigationStep::CloseValve(v) => if o.open_valve == Some(v) {
            Outputs { open_valve: None, ..o }
        } else {
            o
        },
    }
}

/// The outputs after `steps`, carried out in order from `o`.
pub open spec fn apply_steps(o: Outputs, steps: Seq<IrrigationStep>) -> Outputs
    decreases steps.len(),
{
    if steps.len() == 0 {
        o
    } else {
        apply_step(apply_steps(o, steps.drop_last()), steps.last())
    }
}

/// The pump only runs into an open valve.
pub open spec fn pump_safe(o: Outputs) -> bool {
    o.pump_on ==> o.open_valve is Some
}

/// Carried out from rest, a job never runs the pump with its valve closed,
/// and it leaves the pump stopped and the valve closed.
pub proof fn lemma_plan_keeps_pump_safe(valve: HoseValve)
    ensures
        forall|k: int|
            0 <= k <= 5 ==> pump_safe(
                #[trigger] apply_steps(Outputs { open_valve: None, pump_on: false }, irrigation_plan(valve).take(k)),
            ),
        apply_steps(Outputs { open_valve: None, pump_on: false }, irrigation_plan(valve)) == (Outputs {
            open_valve: None,
            pump_on: false,
        }),
{
    let p = irrigation_plan(valve);
    let rest = Outputs { open_valve: None, pump_on: false };
    assert(p.take(0) =~= Seq::<IrrigationStep>::empty());
    assert(p.take(1).drop_last() =~= p.take(0));
    assert(p.take(2).drop_last() =~= p.take(1));
    assert(p.take(3).drop_last() =~= p.take(2));
    assert(p.take(4).drop_last() =~= p.take(3));
    assert(p.take(5).drop_last() =~= p.take(4));
    assert(p.take(5) =~= p);
    assert(p[0] == IrrigationStep::OpenValve(valve) && p[1] == IrrigationStep::PumpOn);
    assert(p[2] == IrrigationStep::WaitForJob && p[3] == IrrigationStep::PumpOff);
    assert(p[4] == IrrigationStep::CloseValve(valve));
    assert(p.take(1).last() == p[0] && p.take(2).last() == p[1] && p.take(3).last() == p[2]);
    assert(p.take(4).last() == p[3] && p.take(5).last() == p[4]);
    assert(apply_steps(rest, p.take(0)) == rest);
    assert(apply_steps(rest, p.take(1)) == Outputs { open_valve: Some(valve), pump_on: false });
    assert(apply_steps(rest, p.take(2)) == Outputs { open_valve: Some(valve), pump_on: true });
    assert(apply_steps(rest, p.take(3)) == Outputs { open_valve: Some(valve), pump_on: true });
    assert(apply_steps(rest, p.take(4)) == Outputs { open_valve: Some(valve), pump_on: false });
}

/// What the scheduler does with the next queued irrigation event: nothing at
/// all while the irrigation reservoir's low sensor reads low, else the
/// event's steps.
pub fn next_event_steps(event: &IrrigationEvent, low_sensor: Level) -> (r: Result<Vec<IrrigationStep>, String>)
    ensures
        low_sensor == Level::Low ==> (r matches Ok(steps) && steps@.len() == 0),
        low_sensor != Level::Low ==> match r {
            Ok(steps) => spec_hose_valve(event.hose_id) matches Some(v) && steps@ == irrigation_plan(v),
            Err(m) => spec_hose_valve(event.hose_id) is None && m@ == "Invalid hose number provided"@,
        },
{
    if low_sensor == Level::Low {
        return Ok(Vec::new());
    }
    irrigation_steps(event)
}

} // verus!
