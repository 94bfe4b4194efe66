//! Setting the contract up, and governing it.
use vstd::prelude::*;

use crate::address::Address;
use crate::data_key::{DataKey, Value};
use crate::env::{Action, Env, Event, DEFAULT_WITHDRAWAL_COOLDOWN};
use crate::error::PoolError;
use crate::pool::LendingPool;
use crate::rules::{CURRENT_VERSION, MAX_WITHDRAWAL_COOLDOWN_LEDGERS};

verus! {

impl LendingPool {
    /// Sets the contract up, once.
    pub fn initialize(env: &mut Env, admin: Address) -> (r: Result<(), PoolError>)
        ensures
            final(env)@ == old(env)@.after_initialize(admin),
            r == (if old(env)@.config.admin is Some {
                Err(PoolError::AlreadyInitialized)
            } else {
                Ok(())
            }),
    {
        if env.config.admin.is_some() {
            return Err(PoolError::AlreadyInitialized);
        }
        env.store(DataKey::Admin, Value::Party(admin));
        env.store(DataKey::Paused, Value::Flag(false));
        env.store(DataKey::WithdrawalCooldown, Value::Number(DEFAULT_WITHDRAWAL_COOLDOWN));
        env.store(DataKey::Version, Value::Number(CURRENT_VERSION));
        Self::bump_instance_ttl(env);
        Ok(())
    }

    /// Version of the contract; 0 before `initialize`.
    pub fn version(env: &mut Env) -> (version: u32)
        ensures
            final(env)@ == old(env)@.bumped(),
            version == old(env)@.config.version,
    {
        Self::bump_instance_ttl(env);
        env.config.version
    }

    /// Who governs the contract.
    pub fn get_admin(env: &mut Env) -> (admin: Address)
        requires
            old(env)@.config.admin is Some,
        ensures
            final(env)@ == old(env)@.bumped(),
            Some(admin) == old(env)@.config.admin,
    {
        Self::admin(env)
    }

    /// Replaces the contract's code by the code with the hash `new_wasm_hash`. The admin must
    /// authorise it.
    pub fn upgrade(env: &mut Env, new_wasm_hash: [u8; 32])
        requires
            old(env)@.config.admin is Some,
        ensures
            final(env)@ == old(env)@.after_upgrade(new_wasm_hash),
    {
        let admin: Address = Self::admin(env);
        env.ask(Action::RequireAuth(admin));
        let old_version: u32 = Self::version(env);
        let new_version: u32 = old_version.saturating_add(1);
        env.store(DataKey::Version, Value::Number(new_version));
        env.ask(Action::Publish(Event::ContractUpgraded { old_version, new_version }));
        env.ask(Action::UpdateWasm(new_wasm_hash));
    }

    /// Sets the cap on the principal of `token`'s pool; 0 lifts it. The admin must authorise it.
    ///
    /// A cap under the current principal is allowed. The pool is then over its cap and takes no
    /// deposits until withdrawals bring it under the cap again: a way to wind a pool down without
    /// forcing anybody out.
    pub fn set_max_pool_size(env: &mut Env, token: Address, max: i128) -> (r: Result<
        (),
        PoolError,
    >)
        requires
            old(env)@.config.admin is Some,
        ensures
            final(env)@ == old(env)@.after_set_max_pool_size(token, max),
            r == (if max < 0 {
                Err(PoolError::InvalidMaxPoolSize)
            } else {
                Ok(())
            }),
    {
        let admin: Address = Self::admin(env);
        env.ask(Action::RequireAuth(admin));
        if max < 0 {
            return Err(PoolError::InvalidMaxPoolSize);
        }
        let old_max: i128 = Self::get_max_pool_size(env, token);
        let total_deposits: i128 = Self::total_deposits(env, &token);
        env.store(DataKey::MaxPoolSize(token), Value::Amount(max));
        Self::bump_instance_ttl(env);
        env.ask(
            Action::Publish(
                Event::DepositCapUpdated { token, old_max, new_max: max, total_deposits },
            ),
        );
        Ok(())
    }

    /// Sets how many ledgers must pass between a deposit and a withdrawal; 0 lifts the cooldown.
    /// The admin must authorise it.
    pub fn set_withdrawal_cooldown(env: &mut Env, ledgers: u32) -> (r: Result<(), PoolError>)
        requires
            old(env)@.config.admin is Some,
        ensures
            final(env)@ == old(env)@.after_set_withdrawal_cooldown(ledgers),
            r == (if ledgers > MAX_WITHDRAWAL_COOLDOWN_LEDGERS {
                Err(PoolError::CooldownTooLong)
            } else {
                Ok(())
            }),
    {
        let admin: Address = Self::admin(env);
        env.ask(Action::RequireAuth(admin));
        if ledgers > MAX_WITHDRAWAL_COOLDOWN_LEDGERS {
            return Err(PoolError::CooldownTooLong);
        }
        let old_cooldown: u32 = Self::get_withdrawal_cooldown(env);
        env.store(DataKey::WithdrawalCooldown, Value::Number(ledgers));
        Self::bump_instance_ttl(env);
        env.ask(
            Action::Publish(
                Event::WithdrawalCooldownUpdated { old_cooldown, new_cooldown: ledgers },
            ),
        );
        Ok(())
    }

    /// Lets `loan_manager` report realised yield for `token`. The admin must authorise it.
    pub fn set_loan_manager(env: &mut Env, token: Address, loan_manager: Address)
        requires
            old(env)@.config.admin is Some,
        ensures
            final(env)@ == old(env)@.after_set_loan_manager(token, loan_manager),
    {
        let admin: Address = Self::admin(env);
        env.ask(Action::RequireAuth(admin));
        env.store(DataKey::LoanManager(token), Value::Party(loan_manager));
        Self::bump_instance_ttl(env);
        env.ask(Action::Publish(Event::LoanManagerUpdated { token, loan_manager }));
    }

    /// Names the next admin, who must accept. The admin must authorise it.
    pub fn propose_admin(env: &mut Env, new_admin: Address)
        requires
            old(env)@.config.admin is Some,
        ensures
            final(env)@ == old(env)@.after_propose_admin(new_admin),
    {
        let current_admin: Address = Self::admin(env);
        env.ask(Action::RequireAuth(current_admin));
        env.store(DataKey::ProposedAdmin, Value::Party(new_admin));
        Self::bump_instance_ttl(env);
        env.ask(Action::Publish(Event::AdminProposed { current_admin, proposed_admin: new_admin }));
    }

    /// Makes the proposed admin the admin, if they authorise it.
    pub fn accept_admin(env: &mut Env) -> (r: Result<(), PoolError>)
        ensures
            final(env)@ == old(env)@.after_accept_admin(),
            r == (if old(env)@.config.proposed_admin is None {
                Err(PoolError::NoProposedAdmin)
            } else {
                Ok(())
            }),
    {
        let proposed_admin: Address = match env.config.proposed_admin {
            Some(proposed_admin) => proposed_admin,
            None => {
                return Err(PoolError::NoProposedAdmin);
            },
        };
        env.ask(Action::RequireAuth(proposed_admin));
        env.store(DataKey::Admin, Value::Party(proposed_admin));
        env.remove_proposal();
        Self::bump_instance_ttl(env);
        env.ask(Action::Publish(Event::AdminTransferred { new_admin: proposed_admin }));
        Ok(())
    }

    /// Hands the contract to another admin at once, and drops any proposal. The admin must
    /// authorise it.
    pub fn set_admin(env: &mut Env, new_admin: Address)
        requires
            old(env)@.config.admin is Some,
        ensures
            final(env)@ == old(env)@.after_set_admin(new_admin),
    {
        let current_admin: Address = Self::admin(env);
        env.ask(Action::RequireAuth(current_admin));
        env.store(DataKey::Admin, Value::Party(new_admin));
        env.remove_proposal();
        Self::bump_instance_ttl(env);
        env.ask(Action::Publish(Event::AdminTransferred { new_admin }));
    }

    /// Stops deposits, withdrawals and reports of yield. The admin must authorise it.
    pub fn pause(env: &mut Env)
        requires
            old(env)@.config.admin is Some,
        ensures
            final(env)@ == old(env)@.after_set_paused(true),
    {
        let admin: Address = Self::admin(env);
        env.ask(Action::RequireAuth(admin));
        env.store(DataKey::Paused, Value::Flag(true));
        Self::bump_instance_ttl(env);
        env.ask(Action::Publish(Event::PoolPaused));
    }

    /// Resumes normal operation. The admin must authorise it.
    pub fn unpause(env: &mut Env)
        requires
            old(env)@.config.admin is Some,
        ensures
            final(env)@ == old(env)@.after_set_paused(false),
    {
        let admin: Address = Self::admin(env);
        env.ask(Action::RequireAuth(admin));
        env.store(DataKey::Paused, Value::Flag(false));
        Self::bump_instance_ttl(env);
        env.ask(Action::Publish(Event::PoolUnpaused));
    }
}

} // verus!
