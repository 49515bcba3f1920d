//! Outputs that switch a piece of equipment on and off.
use vstd::prelude::*;

use crate::hydro::gpio::OutputPin;

verus! {

/// A switched piece of equipment.
pub trait Output {
    spec fn spec_is_on(&self) -> bool;

    spec fn spec_is_off(&self) -> bool;

    fn on(&mut self) -> (r: Result<(), String>)
        ensures
            r is Ok,
            final(self).spec_is_on(),
            !final(self).spec_is_off(),
    ;

    fn off(&mut self) -> (r: Result<(), String>)
        ensures
            r is Ok,
            final(self).spec_is_off(),
            !final(self).spec_is_on(),
    ;

    fn is_on(&self) -> (r: bool)
        ensures
            r == self.spec_is_on(),
    ;

    fn is_off(&self) -> (r: bool)
        ensures
            r == self.spec_is_off(),
    ;
}

/// An output pin with the name of what it drives.
pub struct Control<P: OutputPin> {
    pub label: String,
    pub pin: P,
}

impl<P: OutputPin> Control<P> {
    /// The equipment named `label` on `pin`.
    pub fn new(label: String, pin: P) -> (r: Control<P>)
        ensures
            r.label@ == label@,
            r.pin == pin,
    {
        Control { label, pin }
    }
}

impl<P: OutputPin> Output for Control<P> {
    open spec fn spec_is_on(&self) -> bool {
        self.pin.spec_is_on()
    }

    open spec fn spec_is_off(&self) -> bool {
        self.pin.spec_is_off()
    }

    fn on(&mut self) -> (r: Result<(), String>)
        ensures
            final(self).label@ == old(self).label@,
    {
        self.pin.on();
        Ok(())
    }

    fn off(&mut self) -> (r: Result<(), String>)
        ensures
            final(self).label@ == old(self).label@,
    {
        self.pin.off();
        Ok(())
    }

    fn is_on(&self) -> (r: bool) {
        self.pin.is_on()
    }

    fn is_off(&self) -> (r: bool) {
        self.pin.is_off()
    }
}

} // verus!
