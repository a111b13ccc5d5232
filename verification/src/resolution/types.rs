//! Plain data of the resolution lifecycle.

use vstd::prelude::*;

use crate::address::Address;

verus! {

/// Where a resolution candidate stands in its lifecycle.
#[derive(Clone, Copy, Debug, PartialEq, Eq, Structural, Hash)]
pub enum CandidateStatus {
    /// Proposed; its challenge window may still be open.
    Proposed,
    /// Challenged within its window; it can no longer be finalized.
    Challenged,
    /// Finalized after its window closed unchallenged.
    Finalized,
}

/// The contract's registration: its admin, the factory that indexes it and
/// the market contract that finalized candidates target.
#[derive(Clone, Copy, Debug, PartialEq, Eq, Structural, Hash)]
pub struct ResolutionConfig {
    pub admin: Address,
    pub factory: Address,
    pub market_contract: Address,
}

/// A signed resolution proposal for a market and its challenge state.
#[derive(Debug, PartialEq, Eq)]
pub struct ResolutionCandidate {
    pub id: u32,
    pub market_id: u32,
    pub outcome: bool,
    /// The oracle's 64-byte Ed25519 signature over the outcome.
    pub signature: [u8; 64],
    pub proposer: Address,
    pub evidence_uri: String,
    pub proposed_at: u64,
    pub challenge_deadline: u64,
    pub status: CandidateStatus,
    pub challenged_by: Option<Address>,
    pub challenge_uri: Option<String>,
    pub finalized_at: Option<u64>,
}

impl Clone for ResolutionCandidate {
    fn clone(&self) -> (r: Self)
        ensures
            r == *self,
    {
        let challenge_uri = match &self.challenge_uri {
            Some(u) => Some(u.clone()),
            None => None,
        };
        ResolutionCandidate {
            id: self.id,
            market_id: self.market_id,
            outcome: self.outcome,
            signature: self.signature,
            proposer: self.proposer,
            evidence_uri: self.evidence_uri.clone(),
            proposed_at: self.proposed_at,
            challenge_deadline: self.challenge_deadline,
            status: self.status,
            challenged_by: self.challenged_by,
            challenge_uri,
            finalized_at: self.finalized_at,
        }
    }
}

} // verus!
