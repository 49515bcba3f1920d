//! An input pin held in memory, for running without the board.
use vstd::prelude::*;

use crate::hydro::gpio::{InputPin, Level};

verus! {

pub struct InputPinStub {
    pub level: Level,
    pub index: u8,
}

impl InputPin for InputPinStub {
    open spec fn spec_read(&self) -> Level {
        self.level
    }

    fn is_high(&self) -> (r: bool) {
        self.level == Level::High
    }

    fn is_low(&self) -> (r: bool) {
        self.level == Level::Low
    }

    fn read(&self) -> (r: Level) {
        self.level
    }
}

} // verus!
