//! A board held in memory: a set of numbered pins.
use vstd::prelude::*;

use crate::text::{decimal, push_decimal};

verus! {

#[derive(Clone, Copy, Debug, PartialEq, Eq, Structural)]
pub enum LevelStub {
    Low,
    High,
}

#[derive(Clone, Copy, Debug, PartialEq, Eq, Structural)]
pub struct PinStub {
    pub level: LevelStub,
    pub index: u8,
}

impl PinStub {
    /// The pin's number on the board.
    pub fn pin(&self) -> (r: u8)
        ensures
            r == self.index,
    {
        self.index
    }

    pub fn read(&self) -> (r: LevelStub)
        ensures
            r == self.level,
    {
        self.level
    }
}

pub struct InputPinStub {}

pub struct OutputPinStub {
    pub level: LevelStub,
}

pub struct GpioStub {
    pub pins: Vec<PinStub>,
}

/// The first pin numbered `pin`, if any.
pub open spec fn first_pin(pins: Seq<PinStub>, pin: u8) -> Option<PinStub>
    decreases pins.len(),
{
    if pins.len() == 0 {
        None
    } else if pins[0].index == pin {
        Some(pins[0])
    } else {
        first_pin(pins.drop_first(), pin)
    }
}

impl GpioStub {
    /// A board with no pins.
    pub fn new() -> (r: Result<GpioStub, String>)
        ensures
            r matches Ok(g) && g.pins@.len() == 0,
    {
        Ok(GpioStub { pins: Vec::new() })
    }

    /// The first pin numbered `pin`; a board without it answers
    /// `Pin <pin> not found`.
    pub fn get(&self, pin: u8) -> (r: Result<PinStub, String>)
        ensures
            match r {
                Ok(p) => first_pin(self.pins@, pin) == Some(p),
                Err(m) => first_pin(self.pins@, pin) is None && m@ == "Pin "@ + decimal(pin as nat)
                    + " not found"@,
            },
    {
        let mut i: usize = 0;
        assert(self.pins@.skip(0) =~= self.pins@);
        while i < self.pins.len()
            invariant
                i <= self.pins@.len(),
                first_pin(self.pins@, pin) == first_pin(self.pins@.skip(i as int), pin),
            decreases self.pins@.len() - i,
        {
            let ghost rest = self.pins@.skip(i as int);
            assert(rest[0] == self.pins@[i as int]);
            assert(rest.drop_first() =~= self.pins@.skip(i + 1));
            if self.pins[i].index == pin {
                return Ok(self.pins[i]);
            }
            i = i + 1;
        }
        assert(self.pins@.skip(i as int).len() == 0);
        let mut msg = String::from_str("Pin ");
        push_decimal(&mut msg, pin as u64);
        msg.append(" not found");
        Err(msg)
    }
}

} // verus!
