use lending_pool::{
    Action, Address, AddressKind, DataKey, Env, Event, Holding, LendingPool, Pool, PoolError,
    Position, TtlExtension, Value,
};

fn account(n: u128) -> Address {
    Address { kind: AddressKind::Account, hi: 7, lo: n }
}

fn contract(n: u128) -> Address {
    Address { kind: AddressKind::Contract, hi: 9, lo: n }
}

const TTL: TtlExtension = TtlExtension { threshold: 17_280, extend_to: 518_400 };

/// A contract set up by account 1, in ledger 100.
fn ready() -> Env {
    let mut env = Env::new(contract(1), 100);
    assert_eq!(LendingPool::initialize(&mut env, account(1)), Ok(()));
    env.actions.clear();
    env
}

fn store(key: DataKey, value: Value) -> Action {
    Action::Store { key, value }
}

fn usd() -> Address {
    contract(50)
}

fn deposit(env: &mut Env, provider: Address, amount: i128) -> Result<(), PoolError> {
    assert!(!LendingPool::deposit_would_trap(env, provider, usd(), amount));
    LendingPool::deposit(env, provider, usd(), amount)
}

fn withdraw(env: &mut Env, provider: Address, shares: i128) -> Result<(), PoolError> {
    assert!(!LendingPool::withdraw_would_trap(env, provider, usd(), shares));
    LendingPool::withdraw(env, provider, usd(), shares)
}

fn report_yield(env: &mut Env, amount: i128) -> Result<(), PoolError> {
    assert!(!LendingPool::record_yield_would_trap(env, usd(), amount));
    LendingPool::record_yield(env, usd(), amount)
}

#[test]
fn first_deposit_mints_one_share_per_unit() {
    let mut env = ready();
    let alice = account(2);
    assert_eq!(deposit(&mut env, alice, 1_000), Ok(()));
    assert_eq!(LendingPool::get_shares(&mut env, alice, usd()), 1_000);
    assert_eq!(LendingPool::get_total_shares(&mut env, usd()), 1_000);
    assert_eq!(LendingPool::get_total_deposits(&mut env, usd()), 1_000);
    assert_eq!(LendingPool::get_total_managed_assets(&mut env, usd()), 1_000);
    assert_eq!(LendingPool::get_share_price(&mut env, usd()), 1_000_000);
    assert_eq!(
        env.actions,
        vec![
            Action::RequireAuth(alice),
            Action::Transfer { token: usd(), from: alice, to: contract(1), amount: 1_000 },
            store(DataKey::DepositorCount(usd()), Value::Number(1)),
            store(DataKey::Shares(alice, usd()), Value::Amount(1_000)),
            store(DataKey::DepositTimestamp(alice, usd()), Value::Number(100)),
            store(DataKey::TotalShares(usd()), Value::Amount(1_000)),
            store(DataKey::TotalDeposits(usd()), Value::Amount(1_000)),
            store(DataKey::TotalManagedAssets(usd()), Value::Amount(1_000)),
            Action::Publish(Event::Deposit {
                provider: alice,
                token: usd(),
                amount: 1_000,
                shares: 1_000
            }),
        ]
    );
}

#[test]
fn deposit_keeps_the_entries_alive() {
    let mut env = Env::new(contract(1), 3);
    let alice = account(2);
    assert_eq!(deposit(&mut env, alice, 1_000), Ok(()));
    assert_eq!(env.instance_ttl, Some(TTL));
    assert_eq!(env.entry_ttl.get(&DataKey::Shares(alice, usd())), Some(TTL));
    assert_eq!(env.entry_ttl.get(&DataKey::DepositTimestamp(alice, usd())), Some(TTL));
    assert_eq!(env.entry_ttl.get(&DataKey::Shares(account(3), usd())), None);
}

#[test]
fn opening_deposit_below_the_minimum_is_refused() {
    let mut env = ready();
    assert_eq!(deposit(&mut env, account(2), 999), Err(PoolError::InvalidAmount));
    assert_eq!(deposit(&mut env, account(2), 1_000), Ok(()));
    // Once shares exist, the minimum no longer holds.
    assert_eq!(deposit(&mut env, account(3), 1), Ok(()));
    assert_eq!(LendingPool::get_shares(&mut env, account(3), usd()), 1);
}

#[test]
fn deposit_of_nothing_or_less_is_refused() {
    let mut env = ready();
    assert_eq!(deposit(&mut env, account(2), 0), Err(PoolError::InvalidAmount));
    assert_eq!(deposit(&mut env, account(2), -5), Err(PoolError::InvalidAmount));
    assert_eq!(
        env.actions,
        vec![Action::RequireAuth(account(2)), Action::RequireAuth(account(2))]
    );
    assert_eq!(LendingPool::get_total_shares(&mut env, usd()), 0);
}

#[test]
fn later_deposit_pays_for_yield_already_there() {
    let mut env = ready();
    assert_eq!(deposit(&mut env, account(2), 1_000), Ok(()));
    assert_eq!(report_yield(&mut env, 500), Ok(()));
    // 1,500 assets back 1,000 shares: 300 buys 300 * 1000 / 1500 = 200.
    assert_eq!(deposit(&mut env, account(3), 300), Ok(()));
    assert_eq!(LendingPool::get_shares(&mut env, account(3), usd()), 200);
    assert_eq!(LendingPool::get_deposit(&mut env, account(2), usd()), 1_500);
    assert_eq!(LendingPool::get_deposit(&mut env, account(3), usd()), 300);
    assert_eq!(LendingPool::get_share_price(&mut env, usd()), 1_500_000);
    assert_eq!(LendingPool::get_total_deposits(&mut env, usd()), 1_300);
    assert_eq!(LendingPool::get_total_managed_assets(&mut env, usd()), 1_800);
}

#[test]
fn deposit_that_buys_no_share_is_refused() {
    let mut env = ready();
    assert_eq!(deposit(&mut env, account(2), 1_000), Ok(()));
    assert_eq!(report_yield(&mut env, 1_000_000), Ok(()));
    // A share costs 1,001.
    assert_eq!(deposit(&mut env, account(3), 1_000), Err(PoolError::InvalidAmount));
    assert_eq!(LendingPool::get_total_deposits(&mut env, usd()), 1_000);
    assert_eq!(deposit(&mut env, account(3), 1_001), Ok(()));
    assert_eq!(LendingPool::get_shares(&mut env, account(3), usd()), 1);
}

#[test]
fn cap_is_held_against_principal() {
    let mut env = ready();
    assert_eq!(LendingPool::set_max_pool_size(&mut env, usd(), 2_000), Ok(()));
    assert_eq!(deposit(&mut env, account(2), 1_500), Ok(()));
    assert_eq!(deposit(&mut env, account(3), 501), Err(PoolError::PoolSizeExceeded));
    // Yield does not count against the cap.
    assert_eq!(report_yield(&mut env, 10_000), Ok(()));
    assert_eq!(deposit(&mut env, account(3), 500), Ok(()));
    assert_eq!(LendingPool::get_total_deposits(&mut env, usd()), 2_000);
    assert!(!LendingPool::is_over_cap(&mut env, usd()));
}

#[test]
fn pool_over_its_cap_takes_no_deposits_until_it_shrinks() {
    let mut env = ready();
    let alice = account(2);
    assert_eq!(LendingPool::set_withdrawal_cooldown(&mut env, 0), Ok(()));
    assert_eq!(deposit(&mut env, alice, 5_000), Ok(()));
    assert_eq!(LendingPool::set_max_pool_size(&mut env, usd(), 4_000), Ok(()));
    assert!(LendingPool::is_over_cap(&mut env, usd()));
    assert_eq!(deposit(&mut env, alice, 1), Err(PoolError::PoolSizeExceeded));
    env.set_balance(usd(), 5_000);
    assert_eq!(withdraw(&mut env, alice, 2_000), Ok(()));
    assert!(!LendingPool::is_over_cap(&mut env, usd()));
    assert_eq!(deposit(&mut env, alice, 1_000), Ok(()));
    assert_eq!(deposit(&mut env, alice, 1), Err(PoolError::PoolSizeExceeded));
    // Lifting the cap lets anything in.
    assert_eq!(LendingPool::set_max_pool_size(&mut env, usd(), 0), Ok(()));
    assert_eq!(deposit(&mut env, alice, 1_000_000), Ok(()));
}

#[test]
fn withdrawal_pays_principal_and_yield() {
    let mut env = ready();
    let alice = account(2);
    assert_eq!(deposit(&mut env, alice, 1_000), Ok(()));
    assert_eq!(deposit(&mut env, account(3), 3_000), Ok(()));
    assert_eq!(report_yield(&mut env, 1_000), Ok(()));
    env.sequence = 100 + 1_440;
    env.set_balance(usd(), 5_000);
    env.actions.clear();
    // 400 of 4,000 shares of 5,000 assets.
    assert_eq!(withdraw(&mut env, alice, 400), Ok(()));
    assert_eq!(
        env.actions,
        vec![
            Action::RequireAuth(alice),
            store(DataKey::Shares(alice, usd()), Value::Amount(600)),
            store(DataKey::TotalShares(usd()), Value::Amount(3_600)),
            store(DataKey::TotalManagedAssets(usd()), Value::Amount(4_500)),
            store(DataKey::TotalDeposits(usd()), Value::Amount(3_600)),
            Action::Transfer { token: usd(), from: contract(1), to: alice, amount: 500 },
            Action::Publish(Event::Withdraw {
                provider: alice,
                token: usd(),
                amount: 500,
                shares: 400
            }),
        ]
    );
    assert_eq!(LendingPool::get_shares(&mut env, alice, usd()), 600);
    assert_eq!(LendingPool::get_total_shares(&mut env, usd()), 3_600);
    assert_eq!(LendingPool::get_total_managed_assets(&mut env, usd()), 4_500);
    // Only the principal part, 400 * 4000 / 4000, leaves the deposits.
    assert_eq!(LendingPool::get_total_deposits(&mut env, usd()), 3_600);
    assert_eq!(LendingPool::get_depositor_yield(&mut env, alice, usd()), (600, 750));
}

#[test]
fn payout_is_rounded_down() {
    let mut env = ready();
    let alice = account(2);
    assert_eq!(LendingPool::set_withdrawal_cooldown(&mut env, 0), Ok(()));
    assert_eq!(deposit(&mut env, alice, 1_000), Ok(()));
    assert_eq!(report_yield(&mut env, 1), Ok(()));
    env.set_balance(usd(), 1_001);
    // 999 * 1001 / 1000 = 999.999
    assert_eq!(LendingPool::quote_redemption(&env, alice, usd(), 999), Ok(999));
    assert_eq!(withdraw(&mut env, alice, 999), Ok(()));
    assert_eq!(LendingPool::get_total_managed_assets(&mut env, usd()), 2);
    // The last share takes what is left.
    assert_eq!(withdraw(&mut env, alice, 1), Ok(()));
    assert_eq!(LendingPool::get_total_managed_assets(&mut env, usd()), 0);
}

#[test]
fn redeeming_everything_empties_the_pool() {
    let mut env = ready();
    let alice = account(2);
    let key = Holding { provider: alice, token: usd() };
    assert_eq!(LendingPool::set_withdrawal_cooldown(&mut env, 0), Ok(()));
    assert_eq!(deposit(&mut env, alice, 1_000), Ok(()));
    assert_eq!(report_yield(&mut env, 234), Ok(()));
    env.set_balance(usd(), 1_234);
    env.actions.clear();
    assert_eq!(withdraw(&mut env, alice, 1_000), Ok(()));
    assert_eq!(
        env.actions[1..8].to_vec(),
        vec![
            Action::Remove { key: DataKey::Shares(alice, usd()) },
            Action::Remove { key: DataKey::DepositTimestamp(alice, usd()) },
            store(DataKey::DepositorCount(usd()), Value::Number(0)),
            store(DataKey::TotalShares(usd()), Value::Amount(0)),
            store(DataKey::TotalManagedAssets(usd()), Value::Amount(0)),
            store(DataKey::TotalDeposits(usd()), Value::Amount(0)),
            Action::Transfer { token: usd(), from: contract(1), to: alice, amount: 1_234 },
        ]
    );
    assert_eq!(env.positions.get(&key), None);
    assert_eq!(env.entry_ttl.get(&DataKey::Shares(alice, usd())), None);
    assert_eq!(env.entry_ttl.get(&DataKey::DepositTimestamp(alice, usd())), None);
    let stats = LendingPool::get_pool_stats(&mut env, usd());
    assert_eq!(stats.total_deposits, 0);
    assert_eq!(stats.total_shares, 0);
    assert_eq!(stats.depositor_count, 0);
    assert_eq!(LendingPool::get_total_managed_assets(&mut env, usd()), 0);
    assert_eq!(LendingPool::get_deposit(&mut env, alice, usd()), 0);
    assert_eq!(LendingPool::get_depositor_yield(&mut env, alice, usd()), (0, 0));
    // The pool opens anew, one to one.
    assert_eq!(deposit(&mut env, account(3), 2_000), Ok(()));
    assert_eq!(LendingPool::get_shares(&mut env, account(3), usd()), 2_000);
}

#[test]
fn withdrawal_of_nothing_or_less_is_refused() {
    let mut env = ready();
    assert_eq!(LendingPool::set_withdrawal_cooldown(&mut env, 0), Ok(()));
    assert_eq!(deposit(&mut env, account(2), 1_000), Ok(()));
    assert_eq!(withdraw(&mut env, account(2), 0), Err(PoolError::InvalidAmount));
    assert_eq!(withdraw(&mut env, account(2), -1), Err(PoolError::InvalidAmount));
}

#[test]
fn withdrawal_beyond_the_holding_is_refused() {
    let mut env = ready();
    assert_eq!(LendingPool::set_withdrawal_cooldown(&mut env, 0), Ok(()));
    assert_eq!(deposit(&mut env, account(2), 1_000), Ok(()));
    assert_eq!(withdraw(&mut env, account(2), 1_001), Err(PoolError::InsufficientBalance));
    assert_eq!(withdraw(&mut env, account(3), 1), Err(PoolError::InsufficientBalance));
}

#[test]
fn withdrawal_waits_for_liquidity_at_an_unchanged_price() {
    let mut env = ready();
    let alice = account(2);
    assert_eq!(LendingPool::set_withdrawal_cooldown(&mut env, 0), Ok(()));
    assert_eq!(deposit(&mut env, alice, 10_000), Ok(()));
    // Most of the principal is out on loan.
    env.set_balance(usd(), 2_000);
    assert_eq!(LendingPool::get_share_price(&mut env, usd()), 1_000_000);
    assert_eq!(LendingPool::get_deposit(&mut env, alice, usd()), 10_000);
    assert_eq!(withdraw(&mut env, alice, 2_001), Err(PoolError::InsufficientLiquidity));
    assert_eq!(withdraw(&mut env, alice, 2_000), Ok(()));
    assert_eq!(LendingPool::get_total_managed_assets(&mut env, usd()), 8_000);
}

#[test]
fn direct_transfer_moves_no_price() {
    let mut env = ready();
    let alice = account(2);
    assert_eq!(LendingPool::set_withdrawal_cooldown(&mut env, 0), Ok(()));
    assert_eq!(deposit(&mut env, alice, 1_000), Ok(()));
    env.set_balance(usd(), 1_000_000);
    assert_eq!(LendingPool::get_share_price(&mut env, usd()), 1_000_000);
    assert_eq!(deposit(&mut env, account(3), 1_000), Ok(()));
    assert_eq!(LendingPool::get_shares(&mut env, account(3), usd()), 1_000);
    assert_eq!(LendingPool::quote_redemption(&env, alice, usd(), 1_000), Ok(1_000));
}

#[test]
fn cooldown_runs_from_the_latest_deposit() {
    let mut env = ready();
    let alice = account(2);
    assert_eq!(deposit(&mut env, alice, 1_000), Ok(()));
    env.set_balance(usd(), 10_000);
    env.sequence = 100 + 1_439;
    assert!(!LendingPool::withdraw_asks_balance(&env, alice, usd(), 10));
    assert_eq!(withdraw(&mut env, alice, 10), Err(PoolError::WithdrawalCooldownActive));
    env.sequence = 100 + 1_440;
    assert!(LendingPool::withdraw_asks_balance(&env, alice, usd(), 10));
    assert!(!LendingPool::withdraw_asks_balance(&env, alice, usd(), 1_001));
    assert!(!LendingPool::emergency_withdraw_asks_balance(&env, alice, usd(), 10));
    assert_eq!(withdraw(&mut env, alice, 10), Ok(()));
    // Another deposit starts it again, for the whole holding.
    assert_eq!(deposit(&mut env, alice, 1_000), Ok(()));
    assert_eq!(withdraw(&mut env, alice, 10), Err(PoolError::WithdrawalCooldownActive));
    env.sequence = 100 + 2 * 1_440;
    assert_eq!(withdraw(&mut env, alice, 10), Ok(()));
}

#[test]
fn cooldown_near_the_last_ledger_saturates() {
    let mut env = ready();
    let alice = account(2);
    env.sequence = u32::MAX - 10;
    assert_eq!(deposit(&mut env, alice, 1_000), Ok(()));
    env.set_balance(usd(), 1_000);
    env.sequence = u32::MAX - 1;
    assert_eq!(withdraw(&mut env, alice, 10), Err(PoolError::WithdrawalCooldownActive));
    env.sequence = u32::MAX;
    assert_eq!(withdraw(&mut env, alice, 10), Ok(()));
}

#[test]
fn holding_without_a_deposit_ledger_has_no_cooldown() {
    let mut env = ready();
    let alice = account(2);
    let key = Holding { provider: alice, token: usd() };
    env.put_position(key, Position { shares: 1_000, deposit_ledger: None });
    env.put_pool(
        usd(),
        Pool {
            max_pool_size: 0,
            total_shares: 1_000,
            total_deposits: 1_000,
            total_managed_assets: 1_000,
            loan_manager: None,
            depositor_count: 1,
        },
    );
    env.set_balance(usd(), 1_000);
    // Some shares would stay with nothing to keep alive beside them.
    assert!(LendingPool::withdraw_would_trap(&env, alice, usd(), 10));
    assert_eq!(withdraw(&mut env, alice, 1_000), Ok(()));
    assert_eq!(env.positions.get(&key), None);
}

#[test]
fn refused_withdrawal_keeps_alive_what_it_read() {
    let mut env = ready();
    let alice = account(2);
    assert_eq!(deposit(&mut env, alice, 1_000), Ok(()));
    env.entry_ttl.remove(&DataKey::Shares(alice, usd()));
    env.entry_ttl.remove(&DataKey::DepositTimestamp(alice, usd()));
    assert_eq!(withdraw(&mut env, alice, 10), Err(PoolError::WithdrawalCooldownActive));
    assert_eq!(env.entry_ttl.get(&DataKey::Shares(alice, usd())), None);
    assert_eq!(env.entry_ttl.get(&DataKey::DepositTimestamp(alice, usd())), Some(TTL));
    env.sequence = 5_000;
    assert_eq!(withdraw(&mut env, alice, 1_001), Err(PoolError::InsufficientBalance));
    assert_eq!(env.entry_ttl.get(&DataKey::Shares(alice, usd())), Some(TTL));
}

#[test]
fn paused_contract_refuses_all_but_emergency_withdrawals() {
    let mut env = ready();
    let alice = account(2);
    assert_eq!(deposit(&mut env, alice, 1_000), Ok(()));
    env.set_balance(usd(), 1_000);
    assert_eq!(
        LendingPool::emergency_withdraw(&mut env, alice, usd(), 100),
        Err(PoolError::NotPaused)
    );
    LendingPool::pause(&mut env);
    assert!(LendingPool::is_paused(&mut env));
    assert!(!LendingPool::withdraw_asks_balance(&env, alice, usd(), 100));
    assert!(LendingPool::emergency_withdraw_asks_balance(&env, alice, usd(), 100));
    assert_eq!(deposit(&mut env, alice, 1_000), Err(PoolError::ContractPaused));
    assert_eq!(withdraw(&mut env, alice, 100), Err(PoolError::ContractPaused));
    assert_eq!(report_yield(&mut env, 100), Err(PoolError::ContractPaused));
    env.actions.clear();
    // The cooldown still runs, and does not matter.
    assert!(!LendingPool::emergency_withdraw_would_trap(&env, alice, usd(), 100));
    assert_eq!(LendingPool::emergency_withdraw(&mut env, alice, usd(), 100), Ok(()));
    assert_eq!(
        env.actions,
        vec![
            Action::RequireAuth(alice),
            store(DataKey::Shares(alice, usd()), Value::Amount(900)),
            store(DataKey::TotalShares(usd()), Value::Amount(900)),
            store(DataKey::TotalManagedAssets(usd()), Value::Amount(900)),
            store(DataKey::TotalDeposits(usd()), Value::Amount(900)),
            Action::Transfer { token: usd(), from: contract(1), to: alice, amount: 100 },
            Action::Publish(Event::EmergencyWithdraw {
                provider: alice,
                token: usd(),
                amount: 100,
                shares: 100
            }),
        ]
    );
    assert_eq!(
        LendingPool::emergency_withdraw(&mut env, alice, usd(), 901),
        Err(PoolError::InsufficientBalance)
    );
    LendingPool::unpause(&mut env);
    assert!(!LendingPool::is_paused(&mut env));
    assert_eq!(
        LendingPool::emergency_withdraw(&mut env, alice, usd(), 100),
        Err(PoolError::NotPaused)
    );
}

#[test]
fn yield_is_reported_by_the_loan_manager_or_else_the_admin() {
    let mut env = ready();
    assert_eq!(deposit(&mut env, account(2), 1_000), Ok(()));
    env.actions.clear();
    assert_eq!(report_yield(&mut env, 10), Ok(()));
    assert_eq!(
        env.actions,
        vec![
            Action::RequireAuth(account(1)),
            store(DataKey::TotalManagedAssets(usd()), Value::Amount(1_010)),
            Action::Publish(Event::YieldDistributed { token: usd(), amount: 10 }),
        ]
    );
    assert_eq!(LendingPool::get_loan_manager(&mut env, usd()), None);
    LendingPool::set_loan_manager(&mut env, usd(), contract(77));
    assert_eq!(LendingPool::get_loan_manager(&mut env, usd()), Some(contract(77)));
    env.actions.clear();
    assert_eq!(report_yield(&mut env, 10), Ok(()));
    assert_eq!(env.actions[0], Action::RequireAuth(contract(77)));
    assert_eq!(LendingPool::get_total_managed_assets(&mut env, usd()), 1_020);
    assert_eq!(LendingPool::get_total_deposits(&mut env, usd()), 1_000);
}

#[test]
fn yield_needs_an_amount_and_shares() {
    let mut env = ready();
    assert_eq!(report_yield(&mut env, 10), Err(PoolError::InvalidAmount));
    assert_eq!(deposit(&mut env, account(2), 1_000), Ok(()));
    assert_eq!(report_yield(&mut env, 0), Err(PoolError::InvalidAmount));
    assert_eq!(report_yield(&mut env, -1), Err(PoolError::InvalidAmount));
    assert_eq!(LendingPool::get_total_managed_assets(&mut env, usd()), 1_000);
}

#[test]
fn yield_nobody_can_authorise_traps() {
    let env = Env::new(contract(1), 1);
    assert!(LendingPool::record_yield_would_trap(&env, usd(), 10));
}

#[test]
fn depositors_are_counted_while_they_hold_shares() {
    let mut env = ready();
    assert_eq!(LendingPool::set_withdrawal_cooldown(&mut env, 0), Ok(()));
    env.set_balance(usd(), 10_000);
    assert_eq!(deposit(&mut env, account(2), 1_000), Ok(()));
    assert_eq!(deposit(&mut env, account(3), 1_000), Ok(()));
    assert_eq!(deposit(&mut env, account(3), 1_000), Ok(()));
    assert_eq!(LendingPool::get_pool_stats(&mut env, usd()).depositor_count, 2);
    assert_eq!(withdraw(&mut env, account(3), 500), Ok(()));
    assert_eq!(LendingPool::get_pool_stats(&mut env, usd()).depositor_count, 2);
    assert_eq!(withdraw(&mut env, account(3), 1_500), Ok(()));
    assert_eq!(LendingPool::get_pool_stats(&mut env, usd()).depositor_count, 1);
}

#[test]
fn without_yield_a_share_stays_worth_one_asset() {
    let mut env = ready();
    assert_eq!(LendingPool::set_withdrawal_cooldown(&mut env, 0), Ok(()));
    env.set_balance(usd(), 10_000);
    assert_eq!(deposit(&mut env, account(2), 1_003), Ok(()));
    assert_eq!(deposit(&mut env, account(3), 7), Ok(()));
    assert_eq!(withdraw(&mut env, account(2), 501), Ok(()));
    assert_eq!(deposit(&mut env, account(4), 11), Ok(()));
    let pool = env.pool(&usd());
    assert_eq!(pool.total_shares, 520);
    assert_eq!(pool.total_deposits, 520);
    assert_eq!(pool.total_managed_assets, 520);
    assert_eq!(LendingPool::get_share_price(&mut env, usd()), 1_000_000);
}

#[test]
fn emergency_withdrawal_pays_what_a_withdrawal_pays() {
    let mut paid = Vec::new();
    for paused in [false, true] {
        let mut env = ready();
        let alice = account(2);
        assert_eq!(LendingPool::set_withdrawal_cooldown(&mut env, 0), Ok(()));
        assert_eq!(deposit(&mut env, alice, 1_000), Ok(()));
        assert_eq!(report_yield(&mut env, 77), Ok(()));
        env.set_balance(usd(), 1_077);
        if paused {
            LendingPool::pause(&mut env);
            assert_eq!(LendingPool::emergency_withdraw(&mut env, alice, usd(), 123), Ok(()));
        } else {
            assert_eq!(withdraw(&mut env, alice, 123), Ok(()));
        }
        paid.push((env.pool(&usd()), env.actions[env.actions.len() - 2]));
    }
    // 123 * 1077 / 1000 = 132.471
    let transfer = Action::Transfer {
        token: usd(),
        from: contract(1),
        to: account(2),
        amount: 132,
    };
    assert_eq!(paid[0].1, transfer);
    assert_eq!(paid[0], paid[1]);
}

#[test]
fn managed_assets_are_what_came_in_less_what_was_paid() {
    let mut env = ready();
    assert_eq!(LendingPool::set_withdrawal_cooldown(&mut env, 0), Ok(()));
    env.set_balance(usd(), 10_000);
    assert_eq!(deposit(&mut env, account(2), 1_000), Ok(()));
    assert_eq!(report_yield(&mut env, 250), Ok(()));
    assert_eq!(deposit(&mut env, account(3), 500), Ok(()));
    let quote = LendingPool::quote_redemption(&env, account(2), usd(), 301);
    assert_eq!(quote, Ok(376));
    assert_eq!(withdraw(&mut env, account(2), 301), Ok(()));
    assert_eq!(
        LendingPool::get_total_managed_assets(&mut env, usd()),
        1_000 + 250 + 500 - 376
    );
    assert!(LendingPool::get_total_deposits(&mut env, usd()) <= 1_500);
}

#[test]
fn redeeming_in_parts_gains_nothing() {
    let mut env = ready();
    assert_eq!(LendingPool::set_withdrawal_cooldown(&mut env, 0), Ok(()));
    assert_eq!(deposit(&mut env, account(2), 1_000), Ok(()));
    assert_eq!(deposit(&mut env, account(3), 1_000), Ok(()));
    assert_eq!(report_yield(&mut env, 999), Ok(()));
    env.set_balance(usd(), 2_999);
    // 10 * 2999 / 2000 = 14.995
    assert_eq!(LendingPool::quote_redemption(&env, account(2), usd(), 10), Ok(14));
    let mut sum: i128 = 0;
    for _ in 0..10 {
        sum += LendingPool::quote_redemption(&env, account(2), usd(), 1).unwrap();
        assert_eq!(withdraw(&mut env, account(2), 1), Ok(()));
    }
    assert_eq!(sum, 10);
}

#[test]
fn tokens_have_pools_of_their_own() {
    let mut env = ready();
    let eur = contract(51);
    assert_eq!(deposit(&mut env, account(2), 1_000), Ok(()));
    assert_eq!(LendingPool::deposit(&mut env, account(2), eur, 7_000), Ok(()));
    assert_eq!(report_yield(&mut env, 1_000), Ok(()));
    assert_eq!(LendingPool::get_share_price(&mut env, usd()), 2_000_000);
    assert_eq!(LendingPool::get_share_price(&mut env, eur), 1_000_000);
    assert_eq!(LendingPool::get_deposit(&mut env, account(2), eur), 7_000);
    assert_eq!(LendingPool::get_deposit(&mut env, account(2), usd()), 2_000);
}

#[test]
fn addresses_differ_by_kind() {
    let mut env = ready();
    let a = Address { kind: AddressKind::Account, hi: 1, lo: 2 };
    let c = Address { kind: AddressKind::Contract, hi: 1, lo: 2 };
    assert_eq!(deposit(&mut env, a, 1_000), Ok(()));
    assert_eq!(LendingPool::get_shares(&mut env, a, usd()), 1_000);
    assert_eq!(LendingPool::get_shares(&mut env, c, usd()), 0);
}

#[test]
fn depositing_and_leaving_at_once_gains_nothing() {
    let mut env = ready();
    assert_eq!(LendingPool::set_withdrawal_cooldown(&mut env, 0), Ok(()));
    assert_eq!(deposit(&mut env, account(2), 1_000), Ok(()));
    assert_eq!(report_yield(&mut env, 333), Ok(()));
    // 100 * 1000 / 1333 = 75, and 75 * 1433 / 1075 = 99.98
    assert_eq!(deposit(&mut env, account(3), 100), Ok(()));
    assert_eq!(LendingPool::get_shares(&mut env, account(3), usd()), 75);
    assert_eq!(LendingPool::quote_redemption(&env, account(3), usd(), 75), Ok(99));
    // What the rounding leaves behind goes to those who stay.
    assert_eq!(LendingPool::get_deposit(&mut env, account(2), usd()), 1_333);
    env.set_balance(usd(), 1_433);
    assert_eq!(withdraw(&mut env, account(3), 75), Ok(()));
    assert_eq!(LendingPool::get_deposit(&mut env, account(2), usd()), 1_334);
}

#[test]
fn holdings_together_redeem_to_no_more_than_is_managed() {
    let mut env = ready();
    assert_eq!(deposit(&mut env, account(2), 1_001), Ok(()));
    assert_eq!(deposit(&mut env, account(3), 2_003), Ok(()));
    assert_eq!(deposit(&mut env, account(4), 3_007), Ok(()));
    assert_eq!(report_yield(&mut env, 1_000), Ok(()));
    let mut sum: i128 = 0;
    for n in 2..5 {
        sum += LendingPool::get_deposit(&mut env, account(n), usd());
    }
    assert_eq!(LendingPool::get_total_managed_assets(&mut env, usd()), 7_011);
    assert_eq!(sum, 1_167 + 2_336 + 3_507);
}

#[test]
fn numbers_too_large_to_hold_trap_a_deposit() {
    let mut env = ready();
    let huge: i128 = i128::MAX - 5;
    assert_eq!(deposit(&mut env, account(2), huge), Ok(()));
    assert!(LendingPool::deposit_would_trap(&env, account(2), usd(), 2));
    assert!(LendingPool::deposit_would_trap(&env, account(3), usd(), i128::MAX));
    assert!(!LendingPool::deposit_would_trap(&env, account(3), usd(), 1));
    // A paused contract refuses before it reckons.
    LendingPool::pause(&mut env);
    assert!(!LendingPool::deposit_would_trap(&env, account(2), usd(), 2));
}

#[test]
fn holding_too_large_to_price_is_an_error_not_a_trap() {
    let mut env = ready();
    assert_eq!(LendingPool::set_withdrawal_cooldown(&mut env, 0), Ok(()));
    let huge: i128 = 1 << 100;
    assert_eq!(deposit(&mut env, account(2), huge), Ok(()));
    env.set_balance(usd(), huge);
    assert_eq!(withdraw(&mut env, account(2), huge), Err(PoolError::InvalidAmount));
    assert_eq!(LendingPool::get_deposit(&mut env, account(2), usd()), 0);
    assert_eq!(LendingPool::get_depositor_yield(&mut env, account(2), usd()), (huge, 0));
    assert_eq!(withdraw(&mut env, account(2), 1 << 20), Ok(()));
}
