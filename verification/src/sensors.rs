//! Sensor-facing vocabulary shared with the sensor drivers that live outside
//! the library: sensor names and the decoded AHT20 status byte.

use vstd::prelude::*;

use crate::errors::Error;

verus! {

/// The non-empty name of a sensor.
#[derive(Debug)]
pub struct SensorName {
    name: String,
}

impl View for SensorName {
    type V = Seq<char>;

    closed spec fn view(&self) -> Seq<char> {
        self.name@
    }
}

impl Clone for SensorName {
    fn clone(&self) -> (r: Self)
        ensures
            r@ == self@,
    {
        Self { name: self.name.clone() }
    }
}

impl PartialEq for SensorName {
    fn eq(&self, other: &Self) -> (r: bool) {
        self.name == other.name
    }
}

impl vstd::std_specs::cmp::PartialEqSpecImpl for SensorName {
    open spec fn obeys_eq_spec() -> bool {
        true
    }

    open spec fn eq_spec(&self, other: &SensorName) -> bool {
        self@ == other@
    }
}

impl SensorName {
    /// Wraps a name; rejects the empty string.
    pub fn new(name: &str) -> (r: Result<Self, Error>)
        ensures
            r is Ok <==> name@.len() > 0,
            r matches Ok(n) ==> n@ == name@,
            r matches Err(e) ==> e == Error::InvalidName,
    {
        if name.is_empty() {
            return Err(Error::InvalidName);
        }
        Ok(Self { name: name.to_owned() })
    }

    /// The name as a string.
    pub fn name(&self) -> (r: &str)
        ensures
            r@ == self@,
    {
        self.name.as_str()
    }
}

/// The decoded status byte of an AHT20 humidity and temperature sensor.
#[derive(Debug)]
pub struct AHT20Status {
    pub is_calibrated: bool,
    pub is_busy: bool,
}

impl AHT20Status {
    /// Decodes a status response: bit 3 carries the calibration flag and bit
    /// 7 the busy flag.
    pub fn new(response: &[u8; 1]) -> (r: Result<Self, Error>)
        ensures
            r matches Ok(s) ==> {
                &&& s.is_calibrated == ((response@[0] & 8) != 0)
                &&& s.is_busy == ((response@[0] & 128) != 0)
            },
            r is Ok,
    {
        Ok(Self { is_calibrated: response[0] & 8 != 0, is_busy: response[0] & 128 != 0 })
    }
}

} // verus!
