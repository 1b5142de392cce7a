//! The uniform completion signal of every operation.

use vstd::prelude::*;

verus! {

/// Completion code of `spongent_wrap`, `spongent_unwrap` and `spongent_mac`.
///
/// `Unknown` is reserved for bindings that receive a numeric code this
/// version does not recognize; the core itself never produces it.
#[derive(Debug, PartialEq)]
pub enum SpongentResult {
    /// The operation completed and its outputs are valid.
    Success,
    /// A length precondition was violated before any cryptographic work.
    Fail,
    /// The requested tag length is not supported by the configuration.
    BadHashBitLen,
    /// Tag verification failed during unwrap; no plaintext was released.
    BadTag,
    /// Defensive fallback for unrecognized numeric codes.
    Unknown,
}

/// The numeric code assigned to each completion signal.
pub open spec fn spec_result_from_u32(value: u32) -> SpongentResult {
    if value == 0 {
        SpongentResult::Success
    } else if value == 1 {
        SpongentResult::Fail
    } else if value == 2 {
        SpongentResult::BadHashBitLen
    } else if value == 3 {
        SpongentResult::BadTag
    } else {
        SpongentResult::Unknown
    }
}

impl SpongentResult {
    /// Decodes a numeric completion code as carried across a binding
    /// boundary; codes this version does not know map to `Unknown`.
    pub fn from_u32(value: u32) -> (r: SpongentResult)
        ensures
            r == spec_result_from_u32(value),
    {
        match value {
            0 => SpongentResult::Success,
            1 => SpongentResult::Fail,
            2 => SpongentResult::BadHashBitLen,
            3 => SpongentResult::BadTag,
            _ => SpongentResult::Unknown,
        }
    }
}

} // verus!
