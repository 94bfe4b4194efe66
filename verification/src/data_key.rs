//! The names under which the pool's storage entries are kept.
use vstd::prelude::*;

use crate::address::{Address, Holding};
use crate::table::Key;

verus! {

/// Storage keys.
///
/// Share value is derived only from `TotalManagedAssets`: deposited principal plus realised yield,
/// net of withdrawals. It is not derived from the token balance that the contract holds, which
/// drops while principal is out on loan and which anyone can raise by a direct transfer. That
/// balance only decides whether a redemption can be paid out now.
///
/// Every per-token key carries the token, so one contract serves many pools.
#[derive(Clone, Copy, Debug, PartialEq, Eq, Structural)]
pub enum DataKey {
    Admin,
    Paused,
    WithdrawalCooldown,
    /// Token: cap on the principal of its pool (0: no cap).
    MaxPoolSize(Address),
    /// Token: shares outstanding across all providers.
    TotalShares(Address),
    /// Provider, token: shares held.
    Shares(Address, Address),
    /// Provider, token: ledger sequence of the latest deposit.
    DepositTimestamp(Address, Address),
    /// Token: principal deposited, net of withdrawals. Yield never moves it.
    TotalDeposits(Address),
    /// Token: assets that back its shares (principal and realised yield, net of withdrawals).
    TotalManagedAssets(Address),
    /// Token: who may report realised yield.
    LoanManager(Address),
    /// Token: number of providers that hold shares.
    DepositorCount(Address),
    ProposedAdmin,
    Version,
}

/// What an entry can hold.
#[derive(Clone, Copy, Debug, PartialEq, Eq, Structural)]
pub enum Value {
    Party(Address),
    Flag(bool),
    Number(u32),
    Amount(i128),
}

impl Key for DataKey {
    fn same(&self, other: &Self) -> (b: bool) {
        *self == *other
    }
}

impl DataKey {
    /// Where the shares of a holding are kept.
    pub open spec fn shares_of(h: Holding) -> DataKey {
        DataKey::Shares(h.provider, h.token)
    }

    /// Where the ledger of a holding's latest deposit is kept.
    pub open spec fn timestamp_of(h: Holding) -> DataKey {
        DataKey::DepositTimestamp(h.provider, h.token)
    }
}

} // verus!
