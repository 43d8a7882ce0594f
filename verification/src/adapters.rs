//! Concrete implementations of the hardware-facing traits: the system clock
//! and the mock pin adapters used for testing without real hardware.

use vstd::prelude::*;

use chrono::Timelike;

use crate::domain::{Event, InputPin, OutputPin, OutputPinState, PinNumber, GPIO, I2C};
use crate::errors::Error;
use crate::outputs::TimeOfDay;

verus! {

/// The system clock: reports the current local wall-clock time of day.
#[derive(Clone, Copy)]
pub struct CurrentTimeProvider {}

impl CurrentTimeProvider {
    pub fn new() -> (r: Self) {
        Self {}
    }
}

/// Relies on chrono's `Local::now` and the `Timelike` accessors of the time
/// it returns: `hour` is the hour number from 0 to 23, `minute` and `second`
/// the minute and second numbers from 0 to 59.
#[verifier::external_body]
fn local_hms_now() -> (r: (u32, u32, u32))
    ensures
        r.0 < 24,
        r.1 < 60,
        r.2 < 60,
{
    let t = chrono::Local::now().time();
    (t.hour(), t.minute(), t.second())
}

impl crate::outputs::CurrentTimeProvider for CurrentTimeProvider {
    fn now(&self) -> TimeOfDay {
        let (hour, minute, second) = local_hms_now();
        let time = TimeOfDay::from_hms_opt(hour, minute, second);
        proof {
            assert(time is Some);
        }
        time.unwrap()
    }
}

/// A pin factory for tests: hands out mock pins for any number.
#[derive(Clone, Copy)]
pub struct MockGPIO {}

impl MockGPIO {
    pub fn new() -> (r: Self) {
        Self {}
    }
}

impl GPIO<MockOutputPin, MockInputPin> for MockGPIO {
    /// The mock factory promises that acquisition always succeeds.
    open spec fn infallible(&self) -> bool {
        true
    }

    /// Acquisition through the mock never fails, and the handed-out pin
    /// starts out reporting a high level.
    fn output(&self, number: &PinNumber) -> (r: Result<MockOutputPin, Error>)
        ensures
            r matches Ok(p) && p.pin_state() == OutputPinState::High,
    {
        Ok(MockOutputPin::new(*number))
    }

    /// Acquisition through the mock never fails.
    fn input(&self, _number: &PinNumber) -> (r: Result<MockInputPin, Error>)
        ensures
            r is Ok,
    {
        Ok(MockInputPin::new())
    }
}

/// An output pin for tests: remembers the level it was last driven to.
pub struct MockOutputPin {
    number: PinNumber,
    state: OutputPinState,
}

impl MockOutputPin {
    /// A mock pin starts out reporting a high level.
    pub fn new(number: PinNumber) -> (r: Self)
        ensures
            r.pin_state() == OutputPinState::High,
    {
        Self { state: OutputPinState::High, number }
    }
}

impl OutputPin for MockOutputPin {
    closed spec fn pin_state(&self) -> OutputPinState {
        self.state
    }

    fn set_low(&mut self) {
        self.state = OutputPinState::Low;
    }

    fn set_high(&mut self) {
        self.state = OutputPinState::High;
    }

    fn state(&self) -> OutputPinState {
        self.state
    }
}

/// An input pin stub: it supports no interrupt operation.
pub struct MockInputPin {}

impl MockInputPin {
    pub fn new() -> (r: Self) {
        Self {}
    }
}

impl InputPin for MockInputPin {
    fn set_interrupt(&mut self) -> (r: Result<(), Error>)
        ensures
            r matches Err(e) && e == Error::NotSupported,
    {
        Err(Error::NotSupported)
    }

    fn clear_interrupt(&mut self) -> (r: Result<(), Error>)
        ensures
            r matches Err(e) && e == Error::NotSupported,
    {
        Err(Error::NotSupported)
    }

    fn poll_interrupt(&mut self, _timeout_micros: Option<u64>) -> (r: Result<
        Option<Event>,
        Error,
    >)
        ensures
            r matches Err(e) && e == Error::NotSupported,
    {
        Err(Error::NotSupported)
    }
}

/// An I2C bus stub: it supports no transfer.
pub struct MockI2C {}

impl MockI2C {
    pub fn new() -> (r: Self) {
        Self {}
    }
}

impl I2C for MockI2C {
    fn set_slave_address(&mut self, _slave_address: u16) -> (r: Result<(), Error>)
        ensures
            r matches Err(e) && e == Error::NotSupported,
    {
        Err(Error::NotSupported)
    }

    fn write_read(&mut self, _write_buffer: &[u8], _read_buffer: &mut [u8]) -> (r: Result<
        (),
        Error,
    >)
        ensures
            r matches Err(e) && e == Error::NotSupported,
    {
        Err(Error::NotSupported)
    }

    fn block_write(&mut self, _command: u8, _buffer: &[u8]) -> (r: Result<(), Error>)
        ensures
            r matches Err(e) && e == Error::NotSupported,
    {
        Err(Error::NotSupported)
    }

    fn read(&mut self, _buffer: &mut [u8]) -> (r: Result<usize, Error>)
        ensures
            r matches Err(e) && e == Error::NotSupported,
    {
        Err(Error::NotSupported)
    }

    fn write(&mut self, _buffer: &[u8]) -> (r: Result<usize, Error>)
        ensures
            r matches Err(e) && e == Error::NotSupported,
    {
        Err(Error::NotSupported)
    }
}

} // verus!
