//! The pool heater: one output switched on and off.
use vstd::prelude::*;

use crate::hydro::control::{Control, Output};
use crate::hydro::gpio::OutputPin;

verus! {

pub struct Heater<P: OutputPin> {
    pub control: Control<P>,
}

impl<P: OutputPin> Heater<P> {
    /// A heater switched by `control`.
    pub fn new(control: Control<P>) -> (r: Heater<P>)
        ensures
            r.control == control,
    {
        Heater { control }
    }

    /// Switches the heater on.
    pub fn on(&mut self) -> (r: Result<(), String>)
        ensures
            r is Ok,
            final(self).control.spec_is_on(),
            !final(self).control.spec_is_off(),
            final(self).control.label@ == old(self).control.label@,
    {
        self.control.on()
    }

    /// Switches the heater off.
    pub fn off(&mut self) -> (r: Result<(), String>)
        ensures
            r is Ok,
            final(self).control.spec_is_off(),
            !final(self).control.spec_is_on(),
            final(self).control.label@ == old(self).control.label@,
    {
        self.control.off()
    }

    pub fn is_on(&self) -> (r: bool)
        ensures
            r == self.control.spec_is_on(),
    {
        self.control.is_on()
    }

    pub fn is_off(&self) -> (r: bool)
        ensures
            r == self.control.spec_is_off(),
    {
        self.control.is_off()
    }
}

} // verus!
