//! The part of the network surface that is pure logic: parsing the output
//! state a request body asks for.

use vstd::prelude::*;
use vstd::string::StringSliceAdditionalSpecFns;

use crate::errors::Error;
use crate::outputs::OutputState;

verus! {

/// ASCII uppercase folding of one byte; bytes outside `a..=z` are unchanged.
pub open spec fn upper_byte(b: u8) -> u8 {
    if 97 <= b <= 122 {
        (b - 32) as u8
    } else {
        b
    }
}

/// The bytes spell "ON", compared without regard to ASCII case.
pub open spec fn is_on_text(b: Seq<u8>) -> bool {
    b.len() == 2 && upper_byte(b[0]) == 79 && upper_byte(b[1]) == 78
}

/// The bytes spell "OFF", compared without regard to ASCII case.
pub open spec fn is_off_text(b: Seq<u8>) -> bool {
    b.len() == 3 && upper_byte(b[0]) == 79 && upper_byte(b[1]) == 70 && upper_byte(b[2]) == 70
}

/// Parses a requested output state: "ON" and "OFF" in any ASCII case are
/// accepted, everything else is rejected.
pub fn parse_state(s: &str) -> (r: Result<OutputState, Error>)
    ensures
        r is Ok <==> (is_on_text(s.spec_bytes()) || is_off_text(s.spec_bytes())),
        r matches Ok(v) ==> v == (if is_on_text(s.spec_bytes()) {
            OutputState::On
        } else {
            OutputState::Off
        }),
        r matches Err(e) ==> e == Error::InvalidState,
{
    let b = s.as_bytes();
    if b.len() == 2 {
        if (b[0] == 79 || b[0] == 111) && (b[1] == 78 || b[1] == 110) {
            return Ok(OutputState::On);
        }
    }
    if b.len() == 3 {
        if (b[0] == 79 || b[0] == 111) && (b[1] == 70 || b[1] == 102) && (b[2] == 70 || b[2]
            == 102) {
            return Ok(OutputState::Off);
        }
    }
    Err(Error::InvalidState)
}

} // verus!
