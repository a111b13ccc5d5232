//! Account and contract identities.

use vstd::prelude::*;

use crate::table::KeyEq;

verus! {

/// The identity of an account or a contract on the ledger: its kind and its
/// 32-byte key, held as two 128-bit halves.
#[derive(Clone, Copy, Debug, PartialEq, Eq, Structural, Hash)]
pub struct Address {
    /// `true` for a contract address, `false` for an account address.
    pub contract: bool,
    /// The upper 16 bytes of the key.
    pub hi: u128,
    /// The lower 16 bytes of the key.
    pub lo: u128,
}

impl Address {
    /// An account address whose key is `n`.
    pub fn account(n: u128) -> (a: Address)
        ensures
            a == (Address { contract: false, hi: 0, lo: n }),
    {
        Address { contract: false, hi: 0, lo: n }
    }

    /// A contract address whose key is `n`.
    pub fn contract(n: u128) -> (a: Address)
        ensures
            a == (Address { contract: true, hi: 0, lo: n }),
    {
        Address { contract: true, hi: 0, lo: n }
    }
}

impl KeyEq for Address {
    fn key_eq(&self, other: &Self) -> (r: bool) {
        *self == *other
    }
}

} // verus!
