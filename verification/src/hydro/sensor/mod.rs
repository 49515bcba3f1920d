//! Water level sensors as the controllers read them.
use vstd::prelude::*;

use crate::hydro::gpio::Level;

verus! {

/// Something that reports a level.
pub trait Input {
    spec fn spec_level(&self) -> Level;

    fn is_high(&self) -> (r: bool)
        ensures
            r == (self.spec_level() == Level::High),
    ;

    fn is_low(&self) -> (r: bool)
        ensures
            r == (self.spec_level() == Level::Low),
    ;

    fn level(&self) -> (r: Level)
        ensures
            r == self.spec_level(),
    ;
}

/// A sensor, by the level its pin read.
#[derive(Clone, Copy, Debug, PartialEq, Eq, Structural)]
pub struct Sensor {
    pub level: Level,
}

impl Input for Sensor {
    open spec fn spec_level(&self) -> Level {
        self.level
    }

    fn is_high(&self) -> (r: bool) {
        self.level == Level::High
    }

    fn is_low(&self) -> (r: bool) {
        self.level == Level::Low
    }

    fn level(&self) -> (r: Level) {
        self.level
    }
}

} // verus!
