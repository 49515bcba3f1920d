//! An output pin held in memory, for running without the board.
use vstd::prelude::*;

use crate::hydro::gpio::{Level, OutputPin};

verus! {

pub struct OutputPinStub {
    pub index: u8,
    pub level: Level,
}

impl OutputPin for OutputPinStub {
    open spec fn spec_is_on(&self) -> bool {
        self.level == Level::High
    }

    open spec fn spec_is_off(&self) -> bool {
        self.level == Level::Low
    }

    fn is_on(&self) -> (r: bool) {
        self.level == Level::High
    }

    fn is_off(&self) -> (r: bool) {
        self.level == Level::Low
    }

    fn on(&mut self) {
        self.level = Level::High;
    }

    fn off(&mut self) {
        self.level = Level::Low;
    }
}

} // verus!
