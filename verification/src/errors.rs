//! Error taxonomy of the negotiation core.
//!
//! Configuration and layer-validation failures are surfaced as typed results;
//! driver faults are not represented here, because the library never makes a
//! driver call itself.

use vstd::prelude::*;

verus! {

/// A recoverable failure reported to the caller of a construction or
/// configuration function.
#[derive(Clone, Copy, Debug, PartialEq, Eq, Structural)]
pub enum Error {
    /// A version string was not of the form "major.minor.patch" with three
    /// numeric components that fit in 32 bits.
    VersionParse,
    /// A string meant for the native API contained an embedded null byte.
    StringEncoding,
    /// A requested validation layer is not available; carries the index of
    /// the first unmet entry within the requested list.
    ValidationLayerNotSupported(usize),
    /// An operation already has a queue assignment.
    OperationAlreadyAssigned,
    /// The window/display handle pair is unsupported or mismatched.
    UnsupportedPlatform,
}

} // verus!
