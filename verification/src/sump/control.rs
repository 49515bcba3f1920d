//! What a settled sensor level does to the sump pump.
use vstd::prelude::*;

use crate::hydro::gpio::Level;
use crate::repository::models::sump_event::NewSumpEvent;
use crate::sump::sensor::PinState;

verus! {

/// A change to the pump, with the sump event recorded for it.
#[derive(Clone, Copy, Debug, PartialEq, Eq, Structural)]
pub enum PumpChange {
    /// Turn the pump on; recorded as `pump on` / `reservoir full`.
    On,
    /// After waiting this many seconds, turn the pump off; recorded as
    /// `pump off` / `reservoir empty`.
    OffAfter(u64),
}

pub open spec fn event_text(c: PumpChange) -> (Seq<char>, Seq<char>) {
    match c {
        PumpChange::On => ("pump on"@, "reservoir full"@),
        PumpChange::OffAfter(_) => ("pump off"@, "reservoir empty"@),
    }
}

/// The sump event recorded for a pump change.
pub fn pump_event(c: PumpChange) -> (r: NewSumpEvent)
    ensures
        r.kind@ == event_text(c).0,
        r.info@ == event_text(c).1,
{
    match c {
        PumpChange::On => NewSumpEvent { kind: String::from_str("pump on"), info: String::from_str("reservoir full") },
        PumpChange::OffAfter(_) => NewSumpEvent {
            kind: String::from_str("pump off"),
            info: String::from_str("reservoir empty"),
        },
    }
}

/// The high sensor settled at `level`: the pump starts when the water is
/// high, and the level is recorded.
pub fn update_high_sensor(state: &mut PinState, level: Level) -> (r: Option<PumpChange>)
    ensures
        r == if level == Level::High {
            Some(PumpChange::On)
        } else {
            None
        },
        final(state).high_sensor == level,
        final(state).low_sensor == old(state).low_sensor,
{
    let change = if level == Level::High {
        Some(PumpChange::On)
    } else {
        None
    };
    state.high_sensor = level;
    change
}

/// The low sensor settled at `level`: when the water is low the pump runs on
/// for `delay` seconds, so that the water drops far enough not to bounce the
/// signal, then stops; the level is recorded.
pub fn update_low_sensor(state: &mut PinState, level: Level, delay: u64) -> (r: Option<PumpChange>)
    ensures
        r == if level == Level::Low {
            Some(PumpChange::OffAfter(delay))
        } else {
            None
        },
        final(state).low_sensor == level,
        final(state).high_sensor == old(state).high_sensor,
{
    let change = if level == Level::Low {
        Some(PumpChange::OffAfter(delay))
    } else {
        None
    };
    state.low_sensor = level;
    change
}

} // verus!
