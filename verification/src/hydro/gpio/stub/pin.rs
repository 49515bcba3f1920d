//! A pin held in memory that can be turned into an input or an output.
use vstd::prelude::*;

use crate::hydro::gpio::stub::input_pin::InputPinStub;
use crate::hydro::gpio::stub::output_pin::OutputPinStub;
use crate::hydro::gpio::{InputPin, Level, OutputPin};

verus! {

pub struct PinStub {
    pub level: Level,
    pub index: u8,
}

impl PinStub {
    /// The pin as an input, reading the level it holds.
    pub fn into_input_pullup(self) -> (r: InputPinStub)
        ensures
            r.level == self.level,
            r.index == self.index,
    {
        InputPinStub { level: self.level, index: self.index }
    }

    /// The pin as an output, starting low.
    pub fn into_output_low(self) -> (r: OutputPinStub)
        ensures
            r.level == Level::Low,
            r.index == self.index,
    {
        OutputPinStub { index: self.index, level: Level::Low }
    }
}

impl InputPin for PinStub {
    open spec fn spec_read(&self) -> Level {
        self.level
    }

    fn is_high(&self) -> (r: bool) {
        self.level == Level::High
    }

    fn is_low(&self) -> (r: bool) {
        self.level == Level::Low
    }

    fn read(&self) -> (r: Level) {
        self.level
    }
}

impl OutputPin for PinStub {
    open spec fn spec_is_on(&self) -> bool {
        self.level == Level::High
    }

    open spec fn spec_is_off(&self) -> bool {
        self.level == Level::Low
    }

    fn is_on(&self) -> (r: bool) {
        self.level == Level::High
    }

    fn is_off(&self) -> (r: bool) {
        self.level == Level::Low
    }

    fn off(&mut self) {
        self.level = Level::Low;
    }

    fn on(&mut self) {
        self.level = Level::High;
    }
}

} // verus!
