//! General purpose I/O: pin levels, interrupt triggers, and the pins the
//! controllers drive.
use vstd::prelude::*;

pub mod stub;
pub mod stubb;

verus! {

/// The level of a pin; `Both` stands for "either" when a change is reported.
#[derive(Clone, Copy, Debug, PartialEq, Eq, Structural)]
pub enum Level {
    Low,
    High,
    Both,
}

impl Level {
    pub open spec fn spec_as_u8(self) -> u8 {
        match self {
            Level::Low => 0,
            Level::High => 1,
            Level::Both => 2,
        }
    }

    /// The level's number: low 0, high 1, both 2.
    pub fn as_u8(&self) -> (r: u8)
        ensures
            r == self.spec_as_u8(),
    {
        match self {
            Level::Low => 0,
            Level::High => 1,
            Level::Both => 2,
        }
    }
}

/// Which changes of an input pin raise an interrupt.
#[derive(Clone, Copy, Debug, PartialEq, Eq, Structural)]
pub enum Trigger {
    Disabled,
    RisingEdge,
    FallingEdge,
    Both,
}

/// An output pin driving a piece of equipment: on is high, off is low.
pub trait OutputPin {
    spec fn spec_is_on(&self) -> bool;

    spec fn spec_is_off(&self) -> bool;

    fn is_on(&self) -> (r: bool)
        ensures
            r == self.spec_is_on(),
    ;

    fn is_off(&self) -> (r: bool)
        ensures
            r == self.spec_is_off(),
    ;

    fn on(&mut self)
        ensures
            final(self).spec_is_on(),
            !final(self).spec_is_off(),
    ;

    fn off(&mut self)
        ensures
            final(self).spec_is_off(),
            !final(self).spec_is_on(),
    ;
}

/// An input pin reading a sensor.
pub trait InputPin {
    spec fn spec_read(&self) -> Level;

    fn is_high(&self) -> (r: bool)
        ensures
            r == (self.spec_read() == Level::High),
    ;

    fn is_low(&self) -> (r: bool)
        ensures
            r == (self.spec_read() == Level::Low),
    ;

    fn read(&self) -> (r: Level)
        ensures
            r == self.spec_read(),
    ;
}

} // verus!
