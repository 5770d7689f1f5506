use vstd::prelude::*;

verus! {

/// Errors raised by the ROM builder when a build-time precondition is
/// violated.  Every variant signals a defect in the calling code, not a
/// recoverable runtime condition; callers typically stop the build.
#[derive(Clone, Copy, Debug, PartialEq, Eq, Structural)]
pub enum RomError {
    /// A write would touch an address outside the fixed memory image.
    OutOfBounds,
    /// A lookup table was installed at an address that is not a multiple
    /// of 256.
    TableMisaligned,
    /// A lookup table was installed a second time in the same build.
    TableAlreadyInstalled,
    /// A macro-instruction needs a lookup table that was never installed.
    TableNotInstalled,
}

} // verus!
