//! The contract itself: how its entries are read, and how shares and assets are priced.
use vstd::prelude::*;

use crate::address::{Address, Holding};
use crate::data_key::{DataKey, Value};
use crate::env::{Env, Pool, TtlExtension};
use crate::error::PoolError;
use crate::math;
use crate::rules::{
    INSTANCE_TTL_BUMP, INSTANCE_TTL_THRESHOLD, PERSISTENT_TTL_BUMP, PERSISTENT_TTL_THRESHOLD,
};

verus! {

/// A contract that pools the liquidity of any number of tokens.
#[derive(Clone, Copy, Debug)]
pub struct LendingPool;

impl LendingPool {
    // Keeping entries alive

    pub(crate) fn bump_instance_ttl(env: &mut Env)
        ensures
            final(env)@ == old(env)@.bumped(),
    {
        env.keep_instance(
            TtlExtension { threshold: INSTANCE_TTL_THRESHOLD, extend_to: INSTANCE_TTL_BUMP },
        );
    }

    pub(crate) fn bump_persistent_ttl(env: &mut Env, key: DataKey)
        ensures
            final(env)@ == old(env)@.keeping(key, TtlExtension::persistent()),
    {
        env.keep(
            key,
            TtlExtension { threshold: PERSISTENT_TTL_THRESHOLD, extend_to: PERSISTENT_TTL_BUMP },
        );
    }

    // Reading entries

    pub(crate) fn admin(env: &mut Env) -> (admin: Address)
        requires
            old(env)@.config.admin is Some,
        ensures
            final(env)@ == old(env)@.bumped(),
            Some(admin) == old(env)@.config.admin,
    {
        Self::bump_instance_ttl(env);
        env.config.admin.unwrap()
    }

    pub(crate) fn read_pool_balance(env: &Env, token: &Address) -> (balance: i128)
        requires
            env@.balances.contains_key(*token),
        ensures
            balance == env@.balances[*token],
    {
        env.balances.get(token).unwrap()
    }

    pub(crate) fn total_deposits(env: &mut Env, token: &Address) -> (total: i128)
        ensures
            final(env)@ == old(env)@.bumped(),
            total == old(env)@.pool(*token).total_deposits,
    {
        Self::bump_instance_ttl(env);
        env.pool(token).total_deposits
    }

    pub(crate) fn total_shares(env: &mut Env, token: &Address) -> (total: i128)
        ensures
            final(env)@ == old(env)@.bumped(),
            total == old(env)@.pool(*token).total_shares,
    {
        Self::bump_instance_ttl(env);
        env.pool(token).total_shares
    }

    pub(crate) fn total_managed_assets(env: &mut Env, token: &Address) -> (total: i128)
        ensures
            final(env)@ == old(env)@.bumped(),
            total == old(env)@.pool(*token).total_managed_assets,
    {
        Self::bump_instance_ttl(env);
        env.pool(token).total_managed_assets
    }

    pub(crate) fn set_total_managed_assets(env: &mut Env, token: &Address, value: i128)
        ensures
            final(env)@ == old(env)@.with_pool(
                *token,
                (Pool { total_managed_assets: value, ..old(env)@.pool(*token) }),
            ).storing(DataKey::TotalManagedAssets(*token), Value::Amount(value)).bumped(),
    {
        env.store(DataKey::TotalManagedAssets(*token), Value::Amount(value));
        Self::bump_instance_ttl(env);
    }

    pub(crate) fn loan_manager(env: &mut Env, token: &Address) -> (manager: Option<Address>)
        ensures
            final(env)@ == old(env)@.bumped(),
            manager == old(env)@.pool(*token).loan_manager,
    {
        Self::bump_instance_ttl(env);
        env.pool(token).loan_manager
    }

    pub(crate) fn read_shares(env: &mut Env, h: &Holding) -> (shares: i128)
        ensures
            final(env)@ == old(env)@.shares_read(*h),
            shares == old(env)@.position(*h).shares,
    {
        let shares: i128 = env.position(h).shares;
        if shares > 0 {
            Self::bump_persistent_ttl(env, DataKey::Shares(h.provider, h.token));
        }
        shares
    }

    pub(crate) fn read_deposit_timestamp(env: &mut Env, h: &Holding) -> (ledger: Option<u32>)
        ensures
            final(env)@ == old(env)@.timestamp_read(*h),
            ledger == old(env)@.position(*h).deposit_ledger,
    {
        let ledger: Option<u32> = env.position(h).deposit_ledger;
        if ledger.is_some() {
            Self::bump_persistent_ttl(env, DataKey::DepositTimestamp(h.provider, h.token));
        }
        ledger
    }

    pub(crate) fn read_depositor_count(env: &Env, token: &Address) -> (count: u32)
        ensures
            count == env@.pool(*token).depositor_count,
    {
        env.pool(token).depositor_count
    }

    pub(crate) fn withdrawal_cooldown(env: &mut Env) -> (cooldown: u32)
        ensures
            final(env)@ == old(env)@.bumped(),
            cooldown == old(env)@.config.withdrawal_cooldown,
    {
        Self::bump_instance_ttl(env);
        env.config.withdrawal_cooldown
    }

    pub(crate) fn assert_not_paused(env: &mut Env) -> (r: Result<(), PoolError>)
        ensures
            final(env)@ == old(env)@.bumped(),
            r == (if old(env)@.config.paused {
                Err(PoolError::ContractPaused)
            } else {
                Ok(())
            }),
    {
        Self::bump_instance_ttl(env);
        if env.config.paused {
            return Err(PoolError::ContractPaused);
        }
        Ok(())
    }

    pub(crate) fn assert_withdrawal_cooldown_elapsed(env: &mut Env, h: &Holding) -> (r: Result<
        (),
        PoolError,
    >)
        ensures
            final(env)@ == old(env)@.cooldown_checked(*h),
            r == (if old(env)@.cooling_down(*h) {
                Err(PoolError::WithdrawalCooldownActive)
            } else {
                Ok(())
            }),
    {
        let cooldown: u32 = Self::withdrawal_cooldown(env);
        if cooldown == 0 {
            return Ok(());
        }
        match Self::read_deposit_timestamp(env, h) {
            None => Ok(()),
            Some(deposit_ledger) => {
                if env.sequence < deposit_ledger.saturating_add(cooldown) {
                    return Err(PoolError::WithdrawalCooldownActive);
                }
                Ok(())
            },
        }
    }

    // Pricing shares

    /// Shares to mint for a deposit of `amount`.
    ///
    /// The first depositor gets one share for each unit of the asset. Later ones get
    /// `amount * cur_total_shares / total_assets_before`, so that the exchange rate is kept and
    /// nobody who already holds shares is diluted. While there are shares, assets must back them.
    pub fn calc_shares_to_mint(
        amount: i128,
        total_assets_before: i128,
        cur_total_shares: i128,
    ) -> (shares: i128)
        requires
            cur_total_shares != 0 ==> total_assets_before > 0 && math::fits(
                amount * cur_total_shares,
            ),
        ensures
            shares == math::shares_bought(
                amount as int,
                total_assets_before as int,
                cur_total_shares as int,
            ),
    {
        if cur_total_shares == 0 {
            amount
        } else {
            math::checked_pro_rata(amount, cur_total_shares, total_assets_before).unwrap()
        }
    }

    /// Assets to pay for `shares`: `shares * total_assets / cur_total_shares`, which holds whatever
    /// yield has come in since they were minted.
    ///
    /// What cannot be priced (no shares outstanding, negative assets, a product that cannot be
    /// held) is an error, so that no holding is trapped.
    pub fn calc_assets_to_redeem(
        shares: i128,
        total_assets: i128,
        cur_total_shares: i128,
    ) -> (assets: Result<i128, PoolError>)
        ensures
            match assets {
                Ok(n) => math::can_price(
                    shares as int,
                    total_assets as int,
                    cur_total_shares as int,
                ) && n == math::assets_for(
                    shares as int,
                    total_assets as int,
                    cur_total_shares as int,
                ),
                Err(e) => !math::can_price(
                    shares as int,
                    total_assets as int,
                    cur_total_shares as int,
                ) && e == PoolError::InvalidAmount,
            },
    {
        if cur_total_shares <= 0 {
            return Err(PoolError::InvalidAmount);
        }
        if total_assets < 0 {
            return Err(PoolError::InvalidAmount);
        }
        match math::checked_pro_rata(shares, total_assets, cur_total_shares) {
            Some(assets) => Ok(assets),
            None => Err(PoolError::InvalidAmount),
        }
    }
}

} // verus!
