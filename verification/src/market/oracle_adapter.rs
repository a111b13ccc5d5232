//! Oracle adapters: how a market's outcome is verified when it is resolved.
//!
//! Each adapter bridges the contract's binary `(market_id, outcome)` model
//! and an oracle provider's proof:
//! - Ed25519: the proof is the 64-byte signature of the market's oracle key;
//! - Reflector: not supported yet, every outcome is rejected;
//! - Pyth: the proof is a price attestation (a Wormhole VAA), which the Pyth
//!   receiver contract verifies; the outcome is YES exactly when the attested
//!   price reaches the market's resolution price.
//!
//! The cryptographic check of a signature and the calls to the Pyth receiver
//! are the host's part; the host reports what it learned as an
//! [`OracleReport`], and the adapters decide.

use vstd::prelude::*;

use super::error::ContractError;
use crate::address::Address;

verus! {

/// What the host learned from the oracle about a proof.
#[derive(Clone, Copy, Debug, PartialEq, Eq, Structural)]
pub enum OracleReport {
    /// Whether the 64-byte signature verified against the oracle key.
    Signature { valid: bool },
    /// The price that the oracle attested once the proof was submitted.
    Price { price: i64 },
    /// Nothing was asked of the oracle.
    Nothing,
}

/// Verifies outcomes signed by a single Ed25519 oracle key.
#[derive(Clone, Copy, Debug, PartialEq, Eq)]
pub struct Ed25519Adapter {
    pub oracle_pubkey: [u8; 32],
}

/// The (not yet supported) Reflector price oracle.
#[derive(Clone, Copy, Debug, PartialEq, Eq, Structural)]
pub struct ReflectorAdapter {
    /// The Reflector contract on the target network.
    pub contract_id: Address,
}

/// The Pyth price oracle, resolving YES when the attested price reaches
/// `resolution_price`.
#[derive(Clone, Copy, Debug, PartialEq, Eq)]
pub struct PythAdapter {
    /// The Pyth receiver contract on the target network.
    pub contract_id: Address,
    /// The 32-byte id of the price feed of the market's asset.
    pub price_feed_id: [u8; 32],
    /// The price threshold, in the feed's fixed-point units.
    pub resolution_price: i64,
}

/// An adapter chosen at run time.
#[derive(Clone, Copy, Debug, PartialEq, Eq)]
pub enum AnyAdapter {
    Ed25519(Ed25519Adapter),
    Reflector(ReflectorAdapter),
    Pyth(PythAdapter),
}

/// The outcome that a Pyth price implies: YES when it reaches the threshold.
pub open spec fn pyth_outcome(price: i64, resolution_price: i64) -> bool {
    price >= resolution_price
}

impl Ed25519Adapter {
    /// The signature that `proof` carries. Fails with `InvalidSignature`
    /// unless the proof is exactly 64 bytes.
    pub fn signature_from_proof(proof: &Vec<u8>) -> (r: Result<[u8; 64], ContractError>)
        ensures
            r is Ok <==> proof@.len() == 64,
            r is Err ==> r == Err::<[u8; 64], ContractError>(ContractError::InvalidSignature),
            r is Ok ==> r->Ok_0@ == proof@,
    {
        if proof.len() != 64 {
            return Err(ContractError::InvalidSignature);
        }
        let mut sig = [0u8; 64];
        let mut i: usize = 0;
        while i < 64
            invariant
                proof@.len() == 64,
                i <= 64,
                forall|j: int| 0 <= j < i ==> sig@[j] == proof@[j],
            decreases 64 - i,
        {
            sig[i] = proof[i];
            i = i + 1;
        }
        assert(sig@ =~= proof@);
        Ok(sig)
    }

    /// Accepts `outcome` when the proof is a 64-byte signature that the host
    /// found valid for the market and outcome; fails with `InvalidSignature`
    /// otherwise.
    pub fn verify_outcome(&self, market_id: u32, outcome: bool, proof: &Vec<u8>, report: OracleReport) -> (r:
        Result<(), ContractError>)
        ensures
            r is Ok <==> proof@.len() == 64 && report == (OracleReport::Signature { valid: true }),
            r is Err ==> r == Err::<(), ContractError>(ContractError::InvalidSignature),
    {
        Self::signature_from_proof(proof)?;
        match report {
            OracleReport::Signature { valid } => {
                if valid {
                    Ok(())
                } else {
                    Err(ContractError::InvalidSignature)
                }
            },
            _ => Err(ContractError::InvalidSignature),
        }
    }
}

impl ReflectorAdapter {
    /// Reflector resolution is not supported yet: every outcome is rejected
    /// with `InvalidSignature` rather than a panic.
    pub fn verify_outcome(&self, market_id: u32, outcome: bool, proof: &Vec<u8>) -> (r: Result<
        (),
        ContractError,
    >)
        ensures
            r == Err::<(), ContractError>(ContractError::InvalidSignature),
    {
        Err(ContractError::InvalidSignature)
    }
}

impl PythAdapter {
    /// Fails with `InvalidSignature` when the proof is empty: there is then
    /// no attestation to submit to the receiver.
    pub fn check_proof(&self, proof: &Vec<u8>) -> (r: Result<(), ContractError>)
        ensures
            r is Ok <==> proof@.len() > 0,
            r is Err ==> r == Err::<(), ContractError>(ContractError::InvalidSignature),
    {
        if proof.len() == 0 {
            return Err(ContractError::InvalidSignature);
        }
        Ok(())
    }

    /// Accepts `outcome` when it is the one the attested `price` implies
    /// (YES exactly when `price >= resolution_price`); fails with
    /// `InvalidSignature` otherwise.
    pub fn verify_price(&self, price: i64, outcome: bool) -> (r: Result<(), ContractError>)
        ensures
            r is Ok <==> outcome == pyth_outcome(price, self.resolution_price),
            r is Err ==> r == Err::<(), ContractError>(ContractError::InvalidSignature),
    {
        let resolved_yes = price >= self.resolution_price;
        if resolved_yes != outcome {
            return Err(ContractError::InvalidSignature);
        }
        Ok(())
    }

    /// Accepts `outcome` when the proof is non-empty and the price that the
    /// receiver attested for it implies `outcome`; fails with
    /// `InvalidSignature` otherwise.
    pub fn verify_outcome(&self, market_id: u32, outcome: bool, proof: &Vec<u8>, report: OracleReport) -> (r:
        Result<(), ContractError>)
        ensures
            r is Ok <==> proof@.len() > 0 && (report matches OracleReport::Price { price }
                && outcome == pyth_outcome(price, self.resolution_price)),
            r is Err ==> r == Err::<(), ContractError>(ContractError::InvalidSignature),
    {
        self.check_proof(proof)?;
        match report {
            OracleReport::Price { price } => self.verify_price(price, outcome),
            _ => Err(ContractError::InvalidSignature),
        }
    }
}

impl AnyAdapter {
    /// The verdict of the chosen adapter on `outcome`, given the proof and
    /// what the host learned from the oracle.
    pub fn verify_outcome(&self, market_id: u32, outcome: bool, proof: &Vec<u8>, report: OracleReport) -> (r:
        Result<(), ContractError>)
        ensures
            r is Err ==> r == Err::<(), ContractError>(ContractError::InvalidSignature),
            r is Ok <==> match self {
                AnyAdapter::Ed25519(_) => proof@.len() == 64 && report == (OracleReport::Signature {
                    valid: true,
                }),
                AnyAdapter::Reflector(_) => false,
                AnyAdapter::Pyth(a) => proof@.len() > 0 && (report matches OracleReport::Price {
                    price,
                } && outcome == pyth_outcome(price, a.resolution_price)),
            },
    {
        match self {
            AnyAdapter::Ed25519(a) => a.verify_outcome(market_id, outcome, proof, report),
            AnyAdapter::Reflector(a) => a.verify_outcome(market_id, outcome, proof),
            AnyAdapter::Pyth(a) => a.verify_outcome(market_id, outcome, proof, report),
        }
    }
}

/// The Pyth outcome is a threshold on the attested price, compared as
/// integers: the threshold price itself resolves YES, every lower price
/// resolves NO, and a higher price never turns a YES into a NO.
pub proof fn lemma_pyth_outcome_is_threshold(resolution_price: i64, price: i64, lower: i64)
    ensures
        pyth_outcome(resolution_price, resolution_price),
        (price as int) < (resolution_price as int) ==> !pyth_outcome(price, resolution_price),
        (lower as int) <= (price as int) && pyth_outcome(lower, resolution_price) ==> pyth_outcome(
            price,
            resolution_price,
        ),
{
}

} // verus!
