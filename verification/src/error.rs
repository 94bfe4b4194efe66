//! Why a call is refused.
use vstd::prelude::*;

verus! {

/// The reasons for which the pool refuses a call.
#[derive(Copy, Clone, Debug, Eq, PartialEq, Structural)]
pub enum PoolError {
    AlreadyInitialized,
    NotInitialized,
    ContractPaused,
    InvalidAmount,
    PoolSizeExceeded,
    InsufficientBalance,
    InsufficientLiquidity,
    InvalidMaxPoolSize,
    NoProposedAdmin,
    CooldownTooLong,
    NotPaused,
    WithdrawalCooldownActive,
}

impl PoolError {
    /// The number under which callers of the contract know the error. No error has the number 8.
    pub open spec fn number(self) -> u32 {
        match self {
            PoolError::AlreadyInitialized => 1,
            PoolError::NotInitialized => 2,
            PoolError::ContractPaused => 3,
            PoolError::InvalidAmount => 4,
            PoolError::PoolSizeExceeded => 5,
            PoolError::InsufficientBalance => 6,
            PoolError::InsufficientLiquidity => 7,
            PoolError::InvalidMaxPoolSize => 9,
            PoolError::NoProposedAdmin => 10,
            PoolError::CooldownTooLong => 11,
            PoolError::NotPaused => 12,
            PoolError::WithdrawalCooldownActive => 13,
        }
    }

    /// The number under which callers of the contract know the error.
    pub fn code(self) -> (n: u32)
        ensures
            n == self.number(),
    {
        match self {
            PoolError::AlreadyInitialized => 1,
            PoolError::NotInitialized => 2,
            PoolError::ContractPaused => 3,
            PoolError::InvalidAmount => 4,
            PoolError::PoolSizeExceeded => 5,
            PoolError::InsufficientBalance => 6,
            PoolError::InsufficientLiquidity => 7,
            PoolError::InvalidMaxPoolSize => 9,
            PoolError::NoProposedAdmin => 10,
            PoolError::CooldownTooLong => 11,
            PoolError::NotPaused => 12,
            PoolError::WithdrawalCooldownActive => 13,
        }
    }
}

/// No two errors share a number.
pub proof fn law_error_numbers_differ(a: PoolError, b: PoolError)
    ensures
        a.number() == b.number() ==> a == b,
{
}

/// Every error keeps the number under which callers have come to know it.
pub proof fn law_errors_keep_their_numbers(e: PoolError)
    ensures
        1 <= e.number() <= 13,
        e.number() != 8,
        e.number() == 1 <==> e is AlreadyInitialized,
        e.number() == 2 <==> e is NotInitialized,
        e.number() == 3 <==> e is ContractPaused,
        e.number() == 4 <==> e is InvalidAmount,
        e.number() == 5 <==> e is PoolSizeExceeded,
        e.number() == 6 <==> e is InsufficientBalance,
        e.number() == 7 <==> e is InsufficientLiquidity,
        e.number() == 9 <==> e is InvalidMaxPoolSize,
        e.number() == 10 <==> e is NoProposedAdmin,
        e.number() == 11 <==> e is CooldownTooLong,
        e.number() == 12 <==> e is NotPaused,
        e.number() == 13 <==> e is WithdrawalCooldownActive,
{
}

} // verus!
