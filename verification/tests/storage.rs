use lending_pool::{
    Action, Address, AddressKind, DataKey, Env, Holding, LendingPool, Pool, Position, Value,
};

fn account(n: u128) -> Address {
    Address { kind: AddressKind::Account, hi: 7, lo: n }
}

fn contract(n: u128) -> Address {
    Address { kind: AddressKind::Contract, hi: 9, lo: n }
}

/// What an empty storage holds once the requests are met.
fn written(actions: &Vec<Action>) -> Vec<(DataKey, Value)> {
    let mut storage: Vec<(DataKey, Value)> = Vec::new();
    for action in actions.iter() {
        match action {
            Action::Store { key, value } => {
                storage.retain(|row| row.0 != *key);
                storage.push((*key, *value));
            }
            Action::Remove { key } => storage.retain(|row| row.0 != *key),
            _ => {}
        }
    }
    storage
}

/// What a call made now sees of that storage.
fn reloaded(env: &Env) -> Env {
    let mut again = Env::new(env.contract, env.sequence);
    for (key, value) in written(&env.actions) {
        assert!(again.load(key, value));
    }
    again
}

#[test]
fn what_is_written_is_what_is_seen() {
    let mut env = Env::new(contract(1), 100);
    let usd = contract(50);
    let eur = contract(51);
    let (alice, bob) = (account(2), account(3));
    assert_eq!(LendingPool::initialize(&mut env, account(1)), Ok(()));
    assert_eq!(LendingPool::set_withdrawal_cooldown(&mut env, 0), Ok(()));
    assert_eq!(LendingPool::set_max_pool_size(&mut env, usd, 9_000), Ok(()));
    LendingPool::set_loan_manager(&mut env, usd, contract(60));
    assert_eq!(LendingPool::deposit(&mut env, alice, usd, 1_000), Ok(()));
    env.sequence = 120;
    assert_eq!(LendingPool::deposit(&mut env, bob, usd, 2_000), Ok(()));
    assert_eq!(LendingPool::deposit(&mut env, bob, eur, 5_000), Ok(()));
    assert_eq!(LendingPool::record_yield(&mut env, usd, 300), Ok(()));
    env.set_balance(usd, 3_300);
    assert_eq!(LendingPool::withdraw(&mut env, alice, usd, 1_000), Ok(()));
    assert_eq!(LendingPool::withdraw(&mut env, bob, usd, 500), Ok(()));
    LendingPool::propose_admin(&mut env, account(8));
    LendingPool::pause(&mut env);
    LendingPool::upgrade(&mut env, [1; 32]);

    let again = reloaded(&env);
    assert_eq!(again.config, env.config);
    assert_eq!(again.config.proposed_admin, Some(account(8)));
    assert_eq!(again.pool(&usd), env.pool(&usd));
    assert_eq!(again.pool(&eur), env.pool(&eur));
    for provider in [alice, bob] {
        for token in [usd, eur] {
            let h = Holding { provider, token };
            assert_eq!(again.position(&h), env.position(&h));
        }
    }
    assert_eq!(
        again.pool(&usd),
        Pool {
            max_pool_size: 9_000,
            total_shares: 1_500,
            total_deposits: 1_500,
            total_managed_assets: 1_650,
            loan_manager: Some(contract(60)),
            depositor_count: 1,
        }
    );
    assert_eq!(
        again.position(&Holding { provider: alice, token: usd }),
        Position { shares: 0, deposit_ledger: None }
    );
    assert_eq!(
        again.position(&Holding { provider: bob, token: usd }),
        Position { shares: 1_500, deposit_ledger: Some(120) }
    );

    assert_eq!(LendingPool::accept_admin(&mut env), Ok(()));
    assert_eq!(reloaded(&env).config, env.config);
    assert_eq!(reloaded(&env).config.proposed_admin, None);
}

#[test]
fn value_of_another_kind_is_not_taken_up() {
    let mut env = Env::new(contract(1), 100);
    assert!(!env.load(DataKey::Paused, Value::Number(1)));
    assert!(!env.load(DataKey::Admin, Value::Amount(1)));
    assert!(!env.load(DataKey::TotalShares(contract(50)), Value::Number(1)));
    assert!(!env.load(DataKey::Shares(account(2), contract(50)), Value::Flag(true)));
    assert!(!env.config.paused);
    assert_eq!(env.pools.get(&contract(50)), None);
    assert!(env.load(DataKey::Paused, Value::Flag(true)));
    assert!(env.config.paused);
    assert!(env.load(DataKey::WithdrawalCooldown, Value::Number(9)));
    assert_eq!(LendingPool::get_withdrawal_cooldown(&mut env), 9);
}

#[test]
fn holdings_are_stored_apart_from_the_contract() {
    let usd = contract(50);
    assert!(DataKey::Shares(account(2), usd).is_persistent());
    assert!(DataKey::DepositTimestamp(account(2), usd).is_persistent());
    for key in [
        DataKey::Admin,
        DataKey::Paused,
        DataKey::WithdrawalCooldown,
        DataKey::MaxPoolSize(usd),
        DataKey::TotalShares(usd),
        DataKey::TotalDeposits(usd),
        DataKey::TotalManagedAssets(usd),
        DataKey::LoanManager(usd),
        DataKey::DepositorCount(usd),
        DataKey::ProposedAdmin,
        DataKey::Version,
    ] {
        assert!(!key.is_persistent());
    }
}
