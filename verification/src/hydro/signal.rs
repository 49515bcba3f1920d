//! How the sump pump answers the water level signals.
use vstd::prelude::*;

use crate::hydro::gpio::Level;

verus! {

/// What a water level sensor reports.
#[derive(Clone, Copy, Debug, PartialEq, Eq, Structural)]
pub enum Message {
    SumpEmpty,
    SumpFull,
}

/// A report from a sensor, with the level its pin read.
#[derive(Clone, Copy, Debug, PartialEq, Eq, Structural)]
pub struct Signal {
    pub message: Message,
    pub level: Level,
}

/// What the listener does to the pump, in order.
#[derive(Clone, Copy, Debug, PartialEq, Eq, Structural)]
pub enum PumpAction {
    /// Cancel the safety timer that would force the pump off.
    AbortSafetyTimer,
    /// Wait this many seconds.
    Wait(u64),
    PumpOn,
    PumpOff,
    /// Arm a safety timer that forces the pump off after this many seconds.
    StartSafetyTimer(u64),
}

/// The sump pump listener: when the sump is full the pump runs, with a
/// safety timer that forces it off after `max_pump_runtime` seconds; when the
/// sump is empty the pump runs on for `sump_empty_delay` seconds to clear the
/// hose, then stops.
pub struct SumpPumpListener {
    pub sump_empty_delay: u64,
    pub max_pump_runtime: u64,
    /// Whether a safety timer is armed.
    pub timer_armed: bool,
    /// Whether the actions so far leave the pump running.
    pub pump_on: bool,
}

impl SumpPumpListener {
    /// A running pump always has a safety timer armed.
    pub open spec fn wf(self) -> bool {
        self.pump_on ==> self.timer_armed
    }

    pub fn new(sump_empty_delay: u64, max_pump_runtime: u64) -> (r: SumpPumpListener)
        ensures
            r.wf(),
            r.sump_empty_delay == sump_empty_delay,
            r.max_pump_runtime == max_pump_runtime,
            !r.timer_armed,
            !r.pump_on,
    {
        SumpPumpListener { sump_empty_delay, max_pump_runtime, timer_armed: false, pump_on: false }
    }

    pub open spec fn spec_actions(self, signal: Signal) -> Seq<PumpAction> {
        match signal.message {
            Message::SumpEmpty => if self.timer_armed {
                seq![PumpAction::AbortSafetyTimer, PumpAction::Wait(self.sump_empty_delay), PumpAction::PumpOff]
            } else {
                seq![PumpAction::Wait(self.sump_empty_delay), PumpAction::PumpOff]
            },
            Message::SumpFull => if self.timer_armed {
                seq![
                    PumpAction::PumpOn,
                    PumpAction::AbortSafetyTimer,
                    PumpAction::StartSafetyTimer(self.max_pump_runtime),
                ]
            } else {
                seq![PumpAction::PumpOn, PumpAction::StartSafetyTimer(self.max_pump_runtime)]
            },
        }
    }

    /// The actions that answer `signal`: for a full sump, start the pump and
    /// re-arm the safety timer; for an empty one, cancel the timer, wait out
    /// the shut-off delay and stop the pump.
    pub fn handle(&mut self, signal: &Signal) -> (r: Vec<PumpAction>)
        requires
            old(self).wf(),
        ensures
            final(self).wf(),
            r@ == old(self).spec_actions(*signal),
            final(self).pump_on == (signal.message == Message::SumpFull),
            final(self).timer_armed == (signal.message == Message::SumpFull),
            final(self).sump_empty_delay == old(self).sump_empty_delay,
            final(self).max_pump_runtime == old(self).max_pump_runtime,
    {
        let mut actions: Vec<PumpAction> = Vec::new();
        match signal.message {
            Message::SumpEmpty => {
                if self.timer_armed {
                    actions.push(PumpAction::AbortSafetyTimer);
                }
                actions.push(PumpAction::Wait(self.sump_empty_delay));
                actions.push(PumpAction::PumpOff);
                self.timer_armed = false;
                self.pump_on = false;
            },
            Message::SumpFull => {
                actions.push(PumpAction::PumpOn);
                if self.timer_armed {
                    actions.push(PumpAction::AbortSafetyTimer);
                }
                actions.push(PumpAction::StartSafetyTimer(self.max_pump_runtime));
                self.timer_armed = true;
                self.pump_on = true;
            },
        }
        assert(actions@ =~= old(self).spec_actions(*signal));
        actions
    }

    /// The safety timer ran out: the pump is forced off.
    pub fn safety_timer_fired(&mut self) -> (r: Vec<PumpAction>)
        requires
            old(self).wf(),
        ensures
            final(self).wf(),
            r@ == seq![PumpAction::PumpOff],
            !final(self).pump_on,
            !final(self).timer_armed,
            final(self).sump_empty_delay == old(self).sump_empty_delay,
            final(self).max_pump_runtime == old(self).max_pump_runtime,
    {
        let mut actions: Vec<PumpAction> = Vec::new();
        actions.push(PumpAction::PumpOff);
        self.timer_armed = false;
        self.pump_on = false;
        assert(actions@ =~= seq![PumpAction::PumpOff]);
        actions
    }
}

/// Every time the listener turns the pump on it arms a safety timer in the
/// same answer, after the pump starts and after any older timer is cancelled;
/// and every answer to an empty sump ends with the pump off.
pub proof fn lemma_pump_on_arms_timer(l: SumpPumpListener, signal: Signal)
    ensures
        l.spec_actions(signal).contains(PumpAction::PumpOn) ==> l.spec_actions(signal).last()
            == PumpAction::StartSafetyTimer(l.max_pump_runtime),
        signal.message == Message::SumpEmpty ==> l.spec_actions(signal).last() == PumpAction::PumpOff
            && !l.spec_actions(signal).contains(PumpAction::PumpOn),
{
    let a = l.spec_actions(signal);
    if signal.message == Message::SumpEmpty {
        assert(forall|k: int| 0 <= k < a.len() ==> a[k] != PumpAction::PumpOn);
    }
}

} // verus!
