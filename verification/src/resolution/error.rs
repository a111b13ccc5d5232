//! Error codes of the resolution lifecycle.

use vstd::prelude::*;

verus! {

/// Errors returned by the resolution contract.
#[derive(Clone, Copy, Debug, PartialEq, Eq, PartialOrd, Ord, Structural, Hash)]
pub enum ContractError {
    /// `initialize` has already been called.
    AlreadyInitialized,
    /// The caller is not the admin.
    NotAdmin,
    /// A candidate has already been proposed for the market.
    CandidateAlreadyExists,
    /// No candidate has the given id.
    CandidateNotFound,
    /// The candidate has already been finalized.
    CandidateAlreadyFinalized,
    /// The candidate has already been challenged.
    CandidateAlreadyChallenged,
    /// The challenge window of the candidate has closed.
    ChallengeWindowClosed,
    /// The challenge window of the candidate is still open.
    ChallengeWindowOpen,
    /// The challenge window is shorter than a minute or longer than two weeks.
    InvalidChallengeWindow,
    /// The evidence or challenge URI is empty or longer than 512 bytes.
    InvalidEvidenceUri,
    /// The oracle signature of the proposal did not verify.
    InvalidSignature,
}

} // verus!
