//! The sump's sensor state, and how it is written and read back.
use vstd::prelude::*;

use crate::hydro::gpio::Level;
use crate::text::str_eq;

verus! {

/// The levels of the two sump sensors. The two fields are meant to be read
/// together to decide what the pump should do.
#[derive(Clone, Copy, Debug, PartialEq, Eq, Structural)]
pub struct PinState {
    pub high_sensor: Level,
    pub low_sensor: Level,
}

pub open spec fn spec_level_from_u8(value: u8) -> Option<Level> {
    if value == 0 {
        Some(Level::Low)
    } else if value == 1 {
        Some(Level::High)
    } else {
        None
    }
}

/// Reads back a stored level: 0 is low, 1 is high; any other number is
/// refused.
pub fn deserialize_level(value: u8) -> (r: Result<Level, String>)
    ensures
        match r {
            Ok(l) => spec_level_from_u8(value) == Some(l),
            Err(m) => spec_level_from_u8(value) is None && m@ == "invalid Level value"@,
        },
{
    if value == 0 {
        Ok(Level::Low)
    } else if value == 1 {
        Ok(Level::High)
    } else {
        Err(String::from_str("invalid Level value"))
    }
}

/// Stores a level as its number.
pub fn serialize_level(level: &Level) -> (r: u8)
    ensures
        r == level.spec_as_u8(),
{
    level.as_u8()
}

/// Storing a low or high level and reading it back gives that level.
pub proof fn lemma_level_roundtrip(level: Level)
    requires
        level != Level::Both,
    ensures
        spec_level_from_u8(level.spec_as_u8()) == Some(level),
{
}

/// The level a sump sensor message names: `high`, or anything else for low.
pub fn level_from_message(level: &str) -> (r: Level)
    ensures
        r == if level@ == "high"@ {
            Level::High
        } else {
            Level::Low
        },
{
    if str_eq(level, "high") {
        Level::High
    } else {
        Level::Low
    }
}

/// A sensor message updates the high sensor's recorded level.
pub fn handle_sump_message(state: &mut PinState, level: &str)
    ensures
        final(state).high_sensor == if level@ == "high"@ {
            Level::High
        } else {
            Level::Low
        },
        final(state).low_sensor == old(state).low_sensor,
{
    let level = level_from_message(level);
    if state.high_sensor != level {
        state.high_sensor = level;
    }
}

} // verus!
