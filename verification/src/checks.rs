//! Whether a call would look at the token balance, and whether it would abort instead of
//! returning.
//!
//! A caller that cannot know asks here first: it notes the balance where the call looks at it, and
//! aborts the call itself where the call would abort.
use vstd::prelude::*;

use crate::address::{Address, Holding};
use crate::env::Env;
use crate::pool::LendingPool;
use crate::rules::{MINIMUM_INITIAL_DEPOSIT, SHARE_PRICE_SCALE};

verus! {

impl LendingPool {
    /// Whether `deposit` would abort.
    pub fn deposit_would_trap(env: &Env, provider: Address, token: Address, amount: i128) -> (b:
        bool)
        ensures
            b == env@.deposit_traps((Holding { provider, token }), amount as int),
    {
        let h = Holding { provider, token };
        if env.config.paused || amount <= 0 {
            return false;
        }
        let pool = env.pool(&token);
        match pool.total_deposits.checked_add(amount) {
            None => {
                if pool.max_pool_size > 0 {
                    return true;
                }
            },
            Some(total) => {
                if pool.max_pool_size > 0 && total > pool.max_pool_size {
                    return false;
                }
            },
        }
        if pool.total_shares == 0 && amount < MINIMUM_INITIAL_DEPOSIT {
            return false;
        }
        if pool.total_shares != 0 && (pool.total_managed_assets <= 0 || amount.checked_mul(
            pool.total_shares,
        ).is_none()) {
            return true;
        }
        let minted: i128 = Self::calc_shares_to_mint(
            amount,
            pool.total_managed_assets,
            pool.total_shares,
        );
        let held: i128 = env.position(&h).shares;
        minted > 0 && (held == 0 && pool.depositor_count == u32::MAX || held.checked_add(
            minted,
        ).is_none() || pool.total_shares.checked_add(minted).is_none()
            || pool.total_deposits.checked_add(amount).is_none()
            || pool.total_managed_assets.checked_add(amount).is_none())
    }

    fn redemption_would_trap(env: &Env, h: &Holding, shares: i128) -> (b: bool)
        requires
            env@.liquidity_known(*h, shares as int),
        ensures
            b == env@.redemption_traps(*h, shares as int),
    {
        let payout: i128 = match Self::quote_redemption(env, h.provider, h.token, shares) {
            Ok(payout) => payout,
            Err(_) => {
                return false;
            },
        };
        if Self::read_pool_balance(env, &h.token) < payout {
            return false;
        }
        let pool = env.pool(&h.token);
        let position = env.position(h);
        shares.checked_mul(pool.total_deposits).is_none() || position.shares == shares
            && pool.depositor_count == 0 || position.shares != shares
            && position.deposit_ledger.is_none()
    }

    fn is_cooling_down(env: &Env, h: &Holding) -> (b: bool)
        ensures
            b == env@.cooling_down(*h),
    {
        let cooldown: u32 = env.config.withdrawal_cooldown;
        match env.position(h).deposit_ledger {
            None => false,
            Some(deposit_ledger) => cooldown != 0 && env.sequence < deposit_ledger.saturating_add(
                cooldown,
            ),
        }
    }

    /// Whether `withdraw` would look at the balance of `token`.
    pub fn withdraw_asks_balance(
        env: &Env,
        provider: Address,
        token: Address,
        shares: i128,
    ) -> (b: bool)
        ensures
            b == env@.withdrawal_asks_balance((Holding { provider, token }), shares as int),
    {
        let h = Holding { provider, token };
        !env.config.paused && !Self::is_cooling_down(env, &h) && Self::quote_redemption(
            env,
            provider,
            token,
            shares,
        ).is_ok()
    }

    /// Whether `emergency_withdraw` would look at the balance of `token`.
    pub fn emergency_withdraw_asks_balance(
        env: &Env,
        provider: Address,
        token: Address,
        shares: i128,
    ) -> (b: bool)
        ensures
            b == env@.emergency_asks_balance((Holding { provider, token }), shares as int),
    {
        env.config.paused && Self::quote_redemption(env, provider, token, shares).is_ok()
    }

    /// Whether `withdraw` would abort.
    pub fn withdraw_would_trap(env: &Env, provider: Address, token: Address, shares: i128) -> (b:
        bool)
        requires
            env@.withdrawal_liquidity_known((Holding { provider, token }), shares as int),
        ensures
            b == env@.withdrawal_traps((Holding { provider, token }), shares as int),
    {
        let h = Holding { provider, token };
        !env.config.paused && !Self::is_cooling_down(env, &h) && Self::redemption_would_trap(
            env,
            &h,
            shares,
        )
    }

    /// Whether `emergency_withdraw` would abort.
    pub fn emergency_withdraw_would_trap(
        env: &Env,
        provider: Address,
        token: Address,
        shares: i128,
    ) -> (b: bool)
        requires
            env@.emergency_liquidity_known((Holding { provider, token }), shares as int),
        ensures
            b == env@.emergency_traps((Holding { provider, token }), shares as int),
    {
        let h = Holding { provider, token };
        env.config.paused && Self::redemption_would_trap(env, &h, shares)
    }

    /// Whether `record_yield` would abort.
    pub fn record_yield_would_trap(env: &Env, token: Address, amount: i128) -> (b: bool)
        ensures
            b == env@.yield_traps(token, amount as int),
    {
        let pool = env.pool(&token);
        if pool.loan_manager.is_none() && env.config.admin.is_none() {
            return true;
        }
        !env.config.paused && amount > 0 && pool.total_shares > 0
            && pool.total_managed_assets.checked_add(amount).is_none()
    }

    /// Whether `get_share_price` would abort.
    pub fn get_share_price_would_trap(env: &Env, token: Address) -> (b: bool)
        ensures
            b == env@.pool(token).share_price_traps(),
    {
        let pool = env.pool(&token);
        pool.total_shares > 0 && SHARE_PRICE_SCALE.checked_mul(
            pool.total_managed_assets,
        ).is_none()
    }

    /// Whether `get_pool_stats` would abort.
    pub fn get_pool_stats_would_trap(env: &Env, token: Address) -> (b: bool)
        requires
            env@.balances.contains_key(token),
        ensures
            b == env@.pool(token).utilization_traps(env@.balances[token] as int),
    {
        let pool = env.pool(&token);
        let balance: i128 = Self::read_pool_balance(env, &token);
        if pool.total_deposits <= 0 || balance >= pool.total_deposits {
            return false;
        }
        match pool.total_deposits.checked_sub(balance) {
            None => true,
            Some(borrowed) => borrowed.checked_mul(10_000).is_none(),
        }
    }
}

} // verus!
