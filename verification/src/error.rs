//! The failures that a repository reports.

use prost::DecodeError;
use vstd::prelude::*;

verus! {

/// Why a repository operation failed.
#[derive(Debug, PartialEq, Eq)]
pub enum RepoError {
    /// The record's encoding is longer than a byte vector can be.
    Encode,
    /// The bytes held under the key are not an encoding of the record type.
    Decode(DecodeError),
}

} // verus!
