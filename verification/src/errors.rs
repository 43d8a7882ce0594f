use vstd::prelude::*;

verus! {

/// Every failure the library can report.
///
/// Construction-time validation failures (`InvalidWindow`,
/// `OverlappingWindows`, `InvalidName`, `DuplicateName`, `DuplicatePin`)
/// abort configuration loading; `UnknownOutput` is returned to the caller of
/// an override operation that names a missing output; `InvalidState` rejects
/// a requested output state that is neither on nor off; `Hardware` propagates
/// a failed pin acquisition; `NotSupported` is returned by stub adapters for
/// operations they do not implement.
#[derive(Clone, Copy, Debug, PartialEq, Eq, Structural)]
pub enum Error {
    InvalidWindow,
    OverlappingWindows,
    InvalidName,
    DuplicateName,
    DuplicatePin,
    UnknownOutput,
    InvalidState,
    Hardware,
    NotSupported,
}

} // verus!
