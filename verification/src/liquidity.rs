//! Depositing, redeeming and reporting yield.
use vstd::prelude::*;

use crate::address::{Address, Holding};
use crate::data_key::{DataKey, Value};
use crate::env::{Action, Env, Event};
use crate::error::PoolError;
use crate::math;
use crate::pool::LendingPool;
use crate::rules::MINIMUM_INITIAL_DEPOSIT;

verus! {

impl LendingPool {
    /// Deposits `amount` of `token` for `provider`, who gets shares in return.
    ///
    /// Shares are minted at the current exchange rate: yield that the pool already holds is in the
    /// price, not a gift to the new depositor, and those who hold shares are not diluted. The cap
    /// on the pool's size is held against principal. The price does not depend on what the
    /// contract's address holds of the token, so a direct transfer cannot move it.
    pub fn deposit(env: &mut Env, provider: Address, token: Address, amount: i128) -> (r: Result<
        (),
        PoolError,
    >)
        requires
            !old(env)@.deposit_traps((Holding { provider, token }), amount as int),
        ensures
            final(env)@ == old(env)@.after_deposit((Holding { provider, token }), amount as int),
            match old(env)@.deposit_refusal((Holding { provider, token }), amount as int) {
                Some(e) => r == Err::<(), PoolError>(e),
                None => r == Ok::<(), PoolError>(()),
            },
    {
        let h = Holding { provider, token };
        env.ask(Action::RequireAuth(provider));
        match Self::assert_not_paused(env) {
            Err(e) => {
                return Err(e);
            },
            Ok(()) => {},
        }

        if amount <= 0 {
            return Err(PoolError::InvalidAmount);
        }
        // The cap is held against principal, not against the balance.
        let max: i128 = env.pool(&token).max_pool_size;
        if max > 0 {
            let total: i128 = Self::total_deposits(env, &token);
            if total + amount > max {
                return Err(PoolError::PoolSizeExceeded);
            }
        }
        // The price is taken before the deposit joins the pool.

        let total_assets_before: i128 = Self::total_managed_assets(env, &token);
        let cur_total_shares: i128 = Self::total_shares(env, &token);
        if cur_total_shares == 0 && amount < MINIMUM_INITIAL_DEPOSIT {
            return Err(PoolError::InvalidAmount);
        }
        let shares_to_mint: i128 = Self::calc_shares_to_mint(
            amount,
            total_assets_before,
            cur_total_shares,
        );
        if shares_to_mint <= 0 {
            return Err(PoolError::InvalidAmount);
        }
        let to: Address = env.contract;
        env.ask(Action::Transfer { token, from: provider, to, amount });

        let existing_shares: i128 = Self::read_shares(env, &h);
        if existing_shares == 0 {
            let count: u32 = Self::read_depositor_count(env, &token);
            env.store(DataKey::DepositorCount(token), Value::Number(count + 1));
        }
        let new_shares: i128 = existing_shares + shares_to_mint;
        let share_key = DataKey::Shares(provider, token);
        env.store(share_key, Value::Amount(new_shares));
        Self::bump_persistent_ttl(env, share_key);
        let deposit_key = DataKey::DepositTimestamp(provider, token);
        let current_ledger: u32 = env.sequence;
        env.store(deposit_key, Value::Number(current_ledger));
        Self::bump_persistent_ttl(env, deposit_key);

        let new_total_shares: i128 = cur_total_shares + shares_to_mint;
        env.store(DataKey::TotalShares(token), Value::Amount(new_total_shares));
        let new_total_deposits: i128 = Self::total_deposits(env, &token) + amount;
        env.store(DataKey::TotalDeposits(token), Value::Amount(new_total_deposits));
        // Principal joins the managed assets one to one.
        let new_managed_assets: i128 = total_assets_before + amount;
        Self::set_total_managed_assets(env, &token, new_managed_assets);

        env.ask(
            Action::Publish(Event::Deposit { provider, token, amount, shares: shares_to_mint }),
        );
        Ok(())
    }

    /// Assets that `shares` of the holding would redeem to, were enough of them at hand.
    pub fn quote_redemption(env: &Env, provider: Address, token: Address, shares: i128) -> (assets:
        Result<i128, PoolError>)
        ensures
            match env@.pricing_refusal((Holding { provider, token }), shares as int) {
                Some(e) => assets == Err::<i128, PoolError>(e),
                None => assets is Ok && assets->Ok_0 == env@.payout(token, shares as int),
            },
    {
        if shares <= 0 {
            return Err(PoolError::InvalidAmount);
        }
        let h = Holding { provider, token };
        if env.position(&h).shares < shares {
            return Err(PoolError::InsufficientBalance);
        }
        let pool = env.pool(&token);
        let assets: i128 = match Self::calc_assets_to_redeem(
            shares,
            pool.total_managed_assets,
            pool.total_shares,
        ) {
            Ok(assets) => assets,
            Err(e) => {
                return Err(e);
            },
        };
        if assets <= 0 {
            return Err(PoolError::InvalidAmount);
        }
        Ok(assets)
    }

    /// Burns `shares` of the holding and pays out the assets that they stand for, which it returns.
    ///
    /// The price comes from the managed assets, not from the balance, so that neither a direct
    /// transfer nor a loan moves it. The balance only decides whether the payout can be made now.
    pub(crate) fn redeem_shares(env: &mut Env, h: &Holding, shares: i128) -> (assets: Result<
        i128,
        PoolError,
    >)
        requires
            old(env)@.liquidity_known(*h, shares as int),
            !old(env)@.redemption_traps(*h, shares as int),
        ensures
            final(env)@ == old(env)@.after_redemption(*h, shares as int),
            match old(env)@.redemption_refusal(*h, shares as int) {
                Some(e) => assets == Err::<i128, PoolError>(e),
                None => assets is Ok && assets->Ok_0 == old(env)@.payout(h.token, shares as int),
            },
    {
        if shares <= 0 {
            return Err(PoolError::InvalidAmount);
        }
        let token: Address = h.token;
        let cur_shares: i128 = Self::read_shares(env, h);
        if cur_shares < shares {
            return Err(PoolError::InsufficientBalance);
        }
        let cur_total_shares: i128 = Self::total_shares(env, &token);
        let total_assets: i128 = Self::total_managed_assets(env, &token);
        let assets_to_return: i128 = match Self::calc_assets_to_redeem(
            shares,
            total_assets,
            cur_total_shares,
        ) {
            Ok(assets) => assets,
            Err(e) => {
                return Err(e);
            },
        };
        if assets_to_return <= 0 {
            return Err(PoolError::InvalidAmount);
        }
        let liquid_balance: i128 = Self::read_pool_balance(env, &token);
        if liquid_balance < assets_to_return {
            return Err(PoolError::InsufficientLiquidity);
        }
        // Only principal leaves the total of deposits; the yield in the payout does not.

        let cur_total_deposits: i128 = Self::total_deposits(env, &token);
        let principal_redeemed: i128 = math::checked_pro_rata(
            shares,
            cur_total_deposits,
            cur_total_shares,
        ).unwrap();
        let remaining: i128 = cur_shares - shares;
        if remaining == 0 {
            env.remove_position(*h);
            let count: u32 = Self::read_depositor_count(env, &token);
            env.store(DataKey::DepositorCount(token), Value::Number(count - 1));
        } else {
            let share_key = DataKey::Shares(h.provider, h.token);
            env.store(share_key, Value::Amount(remaining));
            Self::bump_persistent_ttl(env, share_key);
            Self::bump_persistent_ttl(env, DataKey::DepositTimestamp(h.provider, h.token));
        }
        let new_total_shares: i128 = cur_total_shares - shares;
        env.store(DataKey::TotalShares(token), Value::Amount(new_total_shares));

        // The managed assets shrink by the whole payout.
        let new_managed_assets: i128 = total_assets - assets_to_return;
        Self::set_total_managed_assets(env, &token, new_managed_assets);

        let new_total_deposits: i128 = math::saturating_minus(
            cur_total_deposits,
            principal_redeemed,
        );
        env.store(DataKey::TotalDeposits(token), Value::Amount(new_total_deposits));
        Self::bump_instance_ttl(env);

        // The accounting is written before the tokens leave.
        let from: Address = env.contract;
        env.ask(Action::Transfer { token, from, to: h.provider, amount: assets_to_return });
        Ok(assets_to_return)
    }

    /// Burns `shares` of the holding and pays out the assets that they stand for, yield and all.
    pub fn withdraw(env: &mut Env, provider: Address, token: Address, shares: i128) -> (r: Result<
        (),
        PoolError,
    >)
        requires
            old(env)@.withdrawal_liquidity_known((Holding { provider, token }), shares as int),
            !old(env)@.withdrawal_traps((Holding { provider, token }), shares as int),
        ensures
            final(env)@ == old(env)@.after_withdrawal((Holding { provider, token }), shares as int),
            match old(env)@.withdrawal_refusal((Holding { provider, token }), shares as int) {
                Some(e) => r == Err::<(), PoolError>(e),
                None => r == Ok::<(), PoolError>(()),
            },
    {
        let h = Holding { provider, token };
        env.ask(Action::RequireAuth(provider));
        match Self::assert_not_paused(env) {
            Err(e) => {
                return Err(e);
            },
            Ok(()) => {},
        }
        match Self::assert_withdrawal_cooldown_elapsed(env, &h) {
            Err(e) => {
                return Err(e);
            },
            Ok(()) => {},
        }
        match Self::redeem_shares(env, &h, shares) {
            Err(e) => Err(e),
            Ok(amount) => {
                env.ask(Action::Publish(Event::Withdraw { provider, token, amount, shares }));
                Ok(())
            },
        }
    }

    /// The way out while the pool is paused, and only then. The cooldown does not hold here: it is
    /// there against gaming in normal operation and must not trap depositors in a paused pool.
    ///
    /// The event tells an emergency exit from an ordinary withdrawal.
    pub fn emergency_withdraw(
        env: &mut Env,
        provider: Address,
        token: Address,
        shares: i128,
    ) -> (r: Result<(), PoolError>)
        requires
            old(env)@.emergency_liquidity_known((Holding { provider, token }), shares as int),
            !old(env)@.emergency_traps((Holding { provider, token }), shares as int),
        ensures
            final(env)@ == old(env)@.after_emergency((Holding { provider, token }), shares as int),
            match old(env)@.emergency_refusal((Holding { provider, token }), shares as int) {
                Some(e) => r == Err::<(), PoolError>(e),
                None => r == Ok::<(), PoolError>(()),
            },
    {
        let h = Holding { provider, token };
        env.ask(Action::RequireAuth(provider));
        if !Self::is_paused(env) {
            return Err(PoolError::NotPaused);
        }
        match Self::redeem_shares(env, &h, shares) {
            Err(e) => Err(e),
            Ok(amount) => {
                env.ask(
                    Action::Publish(Event::EmergencyWithdraw { provider, token, amount, shares }),
                );
                Ok(())
            },
        }
    }

    /// Records `amount` of realised yield, such as interest repaid into the pool, which raises the
    /// value of every share alike.
    ///
    /// Besides deposits, this is the only way for assets to enter the value of shares. The token's
    /// loan manager must authorise it, or the admin while there is no loan manager. Yield is not
    /// principal: it moves neither the total of deposits nor what counts against the cap. That the
    /// tokens are there is the caller's business; where they are not, redemptions run into the
    /// lack of liquidity.
    pub fn record_yield(env: &mut Env, token: Address, amount: i128) -> (r: Result<(), PoolError>)
        requires
            !old(env)@.yield_traps(token, amount as int),
        ensures
            final(env)@ == old(env)@.after_yield(token, amount as int),
            match old(env)@.yield_refusal(token, amount as int) {
                Some(e) => r == Err::<(), PoolError>(e),
                None => r == Ok::<(), PoolError>(()),
            },
    {
        match Self::loan_manager(env, &token) {
            Some(reporter) => {
                env.ask(Action::RequireAuth(reporter));
            },
            None => {
                let admin: Address = Self::admin(env);
                env.ask(Action::RequireAuth(admin));
            },
        }
        match Self::assert_not_paused(env) {
            Err(e) => {
                return Err(e);
            },
            Ok(()) => {},
        }
        if amount <= 0 {
            return Err(PoolError::InvalidAmount);
        }
        // Without shares there is nobody to receive it.
        if Self::total_shares(env, &token) <= 0 {
            return Err(PoolError::InvalidAmount);
        }
        let new_managed_assets: i128 = Self::total_managed_assets(env, &token) + amount;
        Self::set_total_managed_assets(env, &token, new_managed_assets);

        env.ask(Action::Publish(Event::YieldDistributed { token, amount }));
        Ok(())
    }

    /// Whether the contract is paused.
    pub fn is_paused(env: &mut Env) -> (paused: bool)
        ensures
            final(env)@ == old(env)@.bumped(),
            paused == old(env)@.config.paused,
    {
        Self::bump_instance_ttl(env);
        env.config.paused
    }
}

} // verus!
