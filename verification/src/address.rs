//! Ledger identities.
use vstd::prelude::*;

use crate::table::Key;

verus! {

/// What an address names.
#[derive(Clone, Copy, Debug, PartialEq, Eq, Structural)]
pub enum AddressKind {
    /// An account, named by its public key.
    Account,
    /// A contract, named by its hash.
    Contract,
}

/// The identity of an account or a contract: its kind and the 32 bytes that name it, as two
/// big-endian halves.
#[derive(Clone, Copy, Debug, PartialEq, Eq, Structural)]
pub struct Address {
    pub kind: AddressKind,
    pub hi: u128,
    pub lo: u128,
}

/// A provider's stake in one token's pool.
#[derive(Clone, Copy, Debug, PartialEq, Eq, Structural)]
pub struct Holding {
    pub provider: Address,
    pub token: Address,
}

impl Key for Address {
    fn same(&self, other: &Self) -> (b: bool) {
        *self == *other
    }
}

impl Key for Holding {
    fn same(&self, other: &Self) -> (b: bool) {
        *self == *other
    }
}

} // verus!
