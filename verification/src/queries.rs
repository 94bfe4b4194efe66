//! What can be asked of the contract.
use vstd::prelude::*;

use crate::address::{Address, Holding};
use crate::env::Env;
use crate::math;
use crate::pool::LendingPool;
use crate::rules::SHARE_PRICE_SCALE;

verus! {

/// The state of a token's pool.
#[derive(Clone, Copy, Debug, PartialEq, Eq, Structural)]
pub struct PoolStats {
    pub total_deposits: i128,
    pub total_shares: i128,
    pub pool_token_balance: i128,
    pub depositor_count: u32,
    /// `(total_deposits - pool_token_balance) / total_deposits`, in ten-thousandths, while the
    /// balance is under the principal, else 0. Yield that has come in raises the balance, so the
    /// figure may understate how much of the principal is out on loan.
    pub utilization_bps: u32,
}

impl LendingPool {
    /// Cap on the principal of `token`'s pool; 0 stands for no cap.
    pub fn get_max_pool_size(env: &mut Env, token: Address) -> (max: i128)
        ensures
            final(env)@ == old(env)@.bumped(),
            max == old(env)@.pool(token).max_pool_size,
    {
        Self::bump_instance_ttl(env);
        env.pool(&token).max_pool_size
    }

    /// Whether the principal of `token`'s pool is over its cap.
    pub fn is_over_cap(env: &mut Env, token: Address) -> (over: bool)
        ensures
            final(env)@ == old(env)@.bumped(),
            over == old(env)@.pool(token).over_cap(),
    {
        let max: i128 = Self::get_max_pool_size(env, token);
        if max == 0 {
            false
        } else {
            Self::total_deposits(env, &token) > max
        }
    }

    /// Principal in `token`'s pool.
    pub fn get_total_deposits(env: &mut Env, token: Address) -> (total: i128)
        ensures
            final(env)@ == old(env)@.bumped(),
            total == old(env)@.pool(token).total_deposits,
    {
        Self::total_deposits(env, &token)
    }

    /// Shares of `token`'s pool outstanding across all providers.
    pub fn get_total_shares(env: &mut Env, token: Address) -> (total: i128)
        ensures
            final(env)@ == old(env)@.bumped(),
            total == old(env)@.pool(token).total_shares,
    {
        Self::total_shares(env, &token)
    }

    /// Assets that back the shares of `token`'s pool, principal and realised yield: what sets the
    /// price of a share. It is neither the balance at hand nor the principal alone.
    pub fn get_total_managed_assets(env: &mut Env, token: Address) -> (total: i128)
        ensures
            final(env)@ == old(env)@.bumped(),
            total == old(env)@.pool(token).total_managed_assets,
    {
        Self::total_managed_assets(env, &token)
    }

    /// Ledgers that must pass between a deposit and a withdrawal.
    pub fn get_withdrawal_cooldown(env: &mut Env) -> (cooldown: u32)
        ensures
            final(env)@ == old(env)@.bumped(),
            cooldown == old(env)@.config.withdrawal_cooldown,
    {
        Self::withdrawal_cooldown(env)
    }

    /// Who may report yield for `token`, if anybody was named.
    pub fn get_loan_manager(env: &mut Env, token: Address) -> (manager: Option<Address>)
        ensures
            final(env)@ == old(env)@.bumped(),
            manager == old(env)@.pool(token).loan_manager,
    {
        Self::loan_manager(env, &token)
    }

    /// The shares of `provider` in `token`'s pool and what they are worth now.
    ///
    /// What was paid for them is not kept; a caller who knows it gets the yield by difference.
    pub fn get_depositor_yield(env: &mut Env, provider: Address, token: Address) -> (r: (
        i128,
        i128,
    ))
        ensures
            final(env)@ == old(env)@.stake_read((Holding { provider, token })),
            r.0 == old(env)@.position((Holding { provider, token })).shares,
            r.1 == old(env)@.stake_value((Holding { provider, token })),
    {
        let h = Holding { provider, token };
        let shares: i128 = Self::read_shares(env, &h);
        if shares == 0 {
            proof {
                old(env)@.lemma_no_shares_no_value(h);
            }
            return (0, 0);
        }
        let cur_total_shares: i128 = Self::total_shares(env, &token);
        if cur_total_shares == 0 {
            return (shares, 0);
        }
        let total_assets: i128 = Self::total_managed_assets(env, &token);
        match Self::calc_assets_to_redeem(shares, total_assets, cur_total_shares) {
            Ok(asset_value) => (shares, asset_value),
            Err(_) => (shares, 0),
        }
    }

    /// What the shares of `provider` in `token`'s pool are worth now, principal and yield.
    pub fn get_deposit(env: &mut Env, provider: Address, token: Address) -> (value: i128)
        ensures
            final(env)@ == old(env)@.stake_read((Holding { provider, token })),
            value == old(env)@.stake_value((Holding { provider, token })),
    {
        let h = Holding { provider, token };
        let shares: i128 = Self::read_shares(env, &h);
        if shares == 0 {
            proof {
                old(env)@.lemma_no_shares_no_value(h);
            }
            return 0;
        }
        let cur_total_shares: i128 = Self::total_shares(env, &token);
        if cur_total_shares == 0 {
            return 0;
        }
        let total_assets: i128 = Self::total_managed_assets(env, &token);
        match Self::calc_assets_to_redeem(shares, total_assets, cur_total_shares) {
            Ok(asset_value) => asset_value,
            Err(_) => 0,
        }
    }

    /// Shares that `provider` holds in `token`'s pool.
    pub fn get_shares(env: &mut Env, provider: Address, token: Address) -> (shares: i128)
        ensures
            final(env)@ == old(env)@.shares_read((Holding { provider, token })),
            shares == old(env)@.position((Holding { provider, token })).shares,
    {
        let h = Holding { provider, token };
        Self::read_shares(env, &h)
    }

    /// Price of a share of `token`'s pool, times `SHARE_PRICE_SCALE`: 1,000,000 stands for one
    /// asset per share.
    ///
    /// It comes from the managed assets, so it stands still while principal is out on loan and no
    /// direct transfer moves it.
    pub fn get_share_price(env: &mut Env, token: Address) -> (price: i128)
        requires
            !old(env)@.pool(token).share_price_traps(),
        ensures
            final(env)@ == old(env)@.bumped(),
            price == old(env)@.pool(token).share_price(),
    {
        let total_shares: i128 = Self::total_shares(env, &token);
        if total_shares <= 0 {
            return SHARE_PRICE_SCALE;
        }
        let total_assets: i128 = Self::total_managed_assets(env, &token);
        math::checked_pro_rata(SHARE_PRICE_SCALE, total_assets, total_shares).unwrap()
    }

    /// The state of `token`'s pool.
    pub fn get_pool_stats(env: &mut Env, token: Address) -> (stats: PoolStats)
        requires
            old(env)@.balances.contains_key(token),
            !old(env)@.pool(token).utilization_traps(old(env)@.balances[token] as int),
        ensures
            final(env)@ == old(env)@.bumped(),
            stats.total_deposits == old(env)@.pool(token).total_deposits,
            stats.total_shares == old(env)@.pool(token).total_shares,
            stats.pool_token_balance == old(env)@.balances[token],
            stats.depositor_count == old(env)@.pool(token).depositor_count,
            stats.utilization_bps == old(env)@.pool(token).utilization(
                old(env)@.balances[token] as int,
            ) % 0x1_0000_0000,
    {
        let total_deposits: i128 = Self::total_deposits(env, &token);
        let total_shares: i128 = Self::total_shares(env, &token);
        let pool_token_balance: i128 = Self::read_pool_balance(env, &token);
        let utilization_bps: u32 = if total_deposits > 0 && pool_token_balance < total_deposits {
            let borrowed: i128 = total_deposits - pool_token_balance;
            let scaled: u128 = ((borrowed * 10_000) / total_deposits) as u128;
            assert(scaled as u32 == scaled % 0x1_0000_0000) by (bit_vector);
            #[verifier::truncate]
            (scaled as u32)
        } else {
            0
        };
        PoolStats {
            total_deposits,
            total_shares,
            pool_token_balance,
            depositor_count: Self::read_depositor_count(env, &token),
            utilization_bps,
        }
    }

    /// Balance of `token` that the contract's own address holds.
    pub fn pool_balance(env: &Env, token: Address) -> (balance: i128)
        requires
            env@.balances.contains_key(token),
        ensures
            balance == env@.balances[token],
    {
        Self::read_pool_balance(env, &token)
    }
}

} // verus!
