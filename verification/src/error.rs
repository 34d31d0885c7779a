//! The decoder's error kinds.

use vstd::prelude::*;

verus! {

/// Why a decode or load failed.
///
/// * `SizeMismatch`: a byte slice's length does not match the format's
///   fixed expectation for that record type; carries the expected and
///   the found length.
/// * `InvalidText`: a cavern's 32-byte name field is not valid UTF-8.
/// * `IoFailure`: the byte source is too short to cover the caverns
///   region (or, at the caller's edge, could not be read at all).
///
/// Every decoder fails fast: the first error aborts the whole chain and
/// no partial record is ever returned.
#[derive(Clone, Copy, Debug, PartialEq, Eq, Structural)]
pub enum MinerError {
    SizeMismatch { expected: usize, found: usize },
    InvalidText,
    IoFailure,
}

impl MinerError {
    /// A short human-readable description of the error.
    pub fn describe(&self) -> (s: String)
        ensures
            s@.len() > 0,
    {
        match self {
            MinerError::SizeMismatch { expected: _, found: _ } => {
                let s = String::from_str("record size does not match the format");
                proof {
                    reveal_strlit("record size does not match the format");
                }
                s
            },
            MinerError::InvalidText => {
                let s = String::from_str("cavern name is not valid text");
                proof {
                    reveal_strlit("cavern name is not valid text");
                }
                s
            },
            MinerError::IoFailure => {
                let s = String::from_str("source ends before the caverns region does");
                proof {
                    reveal_strlit("source ends before the caverns region does");
                }
                s
            },
        }
    }
}

} // verus!
