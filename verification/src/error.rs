//! The ways in which decoding can fail.

use vstd::prelude::*;

verus! {

/// Why a decoding step could not be carried out.
#[derive(Clone, Copy, Debug, PartialEq, Eq, Structural)]
pub enum DecodeError {
    /// Fewer bytes remain in the buffer than the step needs.
    Underrun,
    /// The compressed stream is malformed.
    Codec,
}

} // verus!
