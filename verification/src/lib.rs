//! Core of a Delegated-Proof-of-Stake consensus engine: validator ranking,
//! deterministic proposer rotation, block authoring and verification, and
//! quorum-based finalization.
//!
//! Block and header encoding, hashing and signatures come from outside
//! collaborators (`sp_core`, `sp_runtime`); the consensus rules themselves are
//! verified.

use vstd::prelude::*;

pub mod block;
pub mod bytes;
pub mod consensus;
pub mod crypto;
pub mod storage;

verus! {

use crate::consensus::ConsensusError;

/// Library-wide error type: every component failure is surfaced as exactly
/// one of these kinds.
#[derive(Clone, Copy, Debug, PartialEq, Eq, Structural)]
pub enum Error {
    /// Block validation failed on malformed input.
    BlockValidation,
    /// A consensus-level failure; the payload says which kind.
    Consensus(ConsensusError),
    /// A storage-level failure.
    Storage,
    /// A cryptography-level failure.
    Crypto,
}

impl From<ConsensusError> for Error {
    /// Wrap a consensus failure into the library-wide error type.
    fn from(err: ConsensusError) -> (r: Error) {
        Error::Consensus(err)
    }
}

impl vstd::std_specs::convert::FromSpecImpl<ConsensusError> for Error {
    open spec fn obeys_from_spec() -> bool {
        true
    }

    open spec fn from_spec(err: ConsensusError) -> Error {
        Error::Consensus(err)
    }
}

} // verus!
