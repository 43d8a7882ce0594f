//! Hardware-facing vocabulary: pin numbers, pin states and the capability
//! traits through which the controller reaches a board's pins.
//!
//! Concrete hardware adapters implement these traits outside the library;
//! the mock adapters in [`crate::adapters`] implement them for tests.

use vstd::prelude::*;

use crate::errors::Error;

verus! {

/// The number of a pin on the board.
#[derive(Debug, Copy, Clone, PartialEq, Eq, Structural)]
pub struct PinNumber {
    number: u8,
}

impl PinNumber {
    /// The raw pin number.
    pub closed spec fn num(self) -> u8 {
        self.number
    }

    /// Wraps a raw pin number. Every raw number is accepted.
    pub fn new(number: u8) -> (r: Result<Self, Error>)
        ensures
            r matches Ok(p) && p.num() == number,
    {
        Ok(Self { number })
    }

    /// The raw pin number.
    pub fn number(&self) -> (r: u8)
        ensures
            r == self.num(),
    {
        self.number
    }
}

/// Electrical state of an output pin.
#[derive(Clone, Copy, Debug, PartialEq, Eq, Structural)]
pub enum OutputPinState {
    Low,
    High,
}

/// Edge direction of an input-pin interrupt.
#[derive(Clone, Copy, Debug, PartialEq, Eq, Structural)]
pub enum Trigger {
    RisingEdge,
    FallingEdge,
}

/// An interrupt event reported by an input pin.
pub struct Event {
    /// Time since the system was booted, in microseconds.
    pub timestamp_micros: u64,
    pub trigger: Trigger,
}

/// An output pin handle. `pin_state` is the library's model of the line's
/// level: writes drive it and `state` reads it back.
pub trait OutputPin {
    /// The level the pin currently reports.
    spec fn pin_state(&self) -> OutputPinState;

    fn set_low(&mut self)
        ensures
            final(self).pin_state() == OutputPinState::Low,
    ;

    fn set_high(&mut self)
        ensures
            final(self).pin_state() == OutputPinState::High,
    ;

    fn state(&self) -> (r: OutputPinState)
        ensures
            r == self.pin_state(),
    ;
}

/// An input pin handle with interrupt-driven edge detection.
pub trait InputPin {
    fn set_interrupt(&mut self) -> Result<(), Error>;

    fn clear_interrupt(&mut self) -> Result<(), Error>;

    fn poll_interrupt(&mut self, timeout_micros: Option<u64>) -> Result<Option<Event>, Error>;
}

/// A factory handing out pin handles by pin number.
pub trait GPIO<A: OutputPin, B: InputPin> {
    /// Whether every acquisition through this factory succeeds. A test
    /// factory can promise it; a hardware factory need not.
    spec fn infallible(&self) -> bool;

    fn output(&self, number: &PinNumber) -> (r: Result<A, Error>)
        ensures
            self.infallible() ==> r is Ok,
    ;

    fn input(&self, number: &PinNumber) -> (r: Result<B, Error>)
        ensures
            self.infallible() ==> r is Ok,
    ;
}

/// An I2C bus handle.
pub trait I2C {
    fn set_slave_address(&mut self, slave_address: u16) -> Result<(), Error>;

    fn write_read(&mut self, write_buffer: &[u8], read_buffer: &mut [u8]) -> Result<(), Error>;

    fn block_write(&mut self, command: u8, buffer: &[u8]) -> Result<(), Error>;

    fn read(&mut self, buffer: &mut [u8]) -> Result<usize, Error>;

    fn write(&mut self, buffer: &[u8]) -> Result<usize, Error>;
}

} // verus!
