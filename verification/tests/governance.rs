use lending_pool::{
    Action, Address, AddressKind, DataKey, Env, Event, LendingPool, PoolError, TtlExtension, Value,
};

fn account(n: u128) -> Address {
    Address { kind: AddressKind::Account, hi: 7, lo: n }
}

fn contract(n: u128) -> Address {
    Address { kind: AddressKind::Contract, hi: 9, lo: n }
}

const TTL: TtlExtension = TtlExtension { threshold: 17_280, extend_to: 518_400 };

fn store(key: DataKey, value: Value) -> Action {
    Action::Store { key, value }
}

fn ready() -> Env {
    let mut env = Env::new(contract(1), 100);
    assert_eq!(LendingPool::initialize(&mut env, account(1)), Ok(()));
    env.actions.clear();
    env
}

#[test]
fn contract_is_set_up_once() {
    let mut env = Env::new(contract(1), 100);
    assert_eq!(LendingPool::version(&mut env), 0);
    env.instance_ttl = None;
    assert_eq!(LendingPool::initialize(&mut env, account(1)), Ok(()));
    assert_eq!(env.instance_ttl, Some(TTL));
    let written = vec![
        store(DataKey::Admin, Value::Party(account(1))),
        store(DataKey::Paused, Value::Flag(false)),
        store(DataKey::WithdrawalCooldown, Value::Number(1_440)),
        store(DataKey::Version, Value::Number(4)),
    ];
    assert_eq!(env.actions, written);
    assert_eq!(LendingPool::get_admin(&mut env), account(1));
    assert_eq!(LendingPool::version(&mut env), 4);
    assert_eq!(LendingPool::get_withdrawal_cooldown(&mut env), 1_440);
    assert!(!LendingPool::is_paused(&mut env));
    assert_eq!(
        LendingPool::initialize(&mut env, account(2)),
        Err(PoolError::AlreadyInitialized)
    );
    assert_eq!(LendingPool::get_admin(&mut env), account(1));
    assert_eq!(env.actions, written);
}

#[test]
fn upgrade_counts_the_version_up() {
    let mut env = ready();
    LendingPool::upgrade(&mut env, [3; 32]);
    assert_eq!(LendingPool::version(&mut env), 5);
    assert_eq!(
        env.actions,
        vec![
            Action::RequireAuth(account(1)),
            store(DataKey::Version, Value::Number(5)),
            Action::Publish(Event::ContractUpgraded { old_version: 4, new_version: 5 }),
            Action::UpdateWasm([3; 32]),
        ]
    );
    env.config.version = u32::MAX;
    LendingPool::upgrade(&mut env, [4; 32]);
    assert_eq!(LendingPool::version(&mut env), u32::MAX);
}

#[test]
fn cap_is_set_by_the_admin() {
    let mut env = ready();
    let usd = contract(50);
    assert_eq!(LendingPool::get_max_pool_size(&mut env, usd), 0);
    assert_eq!(LendingPool::set_max_pool_size(&mut env, usd, 10_000), Ok(()));
    assert_eq!(LendingPool::deposit(&mut env, account(2), usd, 6_000), Ok(()));
    env.actions.clear();
    assert_eq!(LendingPool::set_max_pool_size(&mut env, usd, 5_000), Ok(()));
    assert_eq!(
        env.actions,
        vec![
            Action::RequireAuth(account(1)),
            store(DataKey::MaxPoolSize(usd), Value::Amount(5_000)),
            Action::Publish(Event::DepositCapUpdated {
                token: usd,
                old_max: 10_000,
                new_max: 5_000,
                total_deposits: 6_000
            }),
        ]
    );
    assert_eq!(LendingPool::get_max_pool_size(&mut env, usd), 5_000);
    assert!(LendingPool::is_over_cap(&mut env, usd));
}

#[test]
fn negative_cap_is_refused() {
    let mut env = ready();
    let usd = contract(50);
    assert_eq!(
        LendingPool::set_max_pool_size(&mut env, usd, -1),
        Err(PoolError::InvalidMaxPoolSize)
    );
    assert_eq!(LendingPool::get_max_pool_size(&mut env, usd), 0);
    assert_eq!(env.actions, vec![Action::RequireAuth(account(1))]);
}

#[test]
fn cooldown_has_a_longest_setting() {
    let mut env = ready();
    assert_eq!(LendingPool::set_withdrawal_cooldown(&mut env, 518_400), Ok(()));
    assert_eq!(
        LendingPool::set_withdrawal_cooldown(&mut env, 518_401),
        Err(PoolError::CooldownTooLong)
    );
    assert_eq!(LendingPool::get_withdrawal_cooldown(&mut env), 518_400);
    assert_eq!(
        env.actions,
        vec![
            Action::RequireAuth(account(1)),
            store(DataKey::WithdrawalCooldown, Value::Number(518_400)),
            Action::Publish(Event::WithdrawalCooldownUpdated {
                old_cooldown: 1_440,
                new_cooldown: 518_400
            }),
            Action::RequireAuth(account(1)),
        ]
    );
}

#[test]
fn loan_manager_is_named_by_the_admin() {
    let mut env = ready();
    LendingPool::set_loan_manager(&mut env, contract(50), contract(60));
    assert_eq!(
        env.actions,
        vec![
            Action::RequireAuth(account(1)),
            store(DataKey::LoanManager(contract(50)), Value::Party(contract(60))),
            Action::Publish(Event::LoanManagerUpdated {
                token: contract(50),
                loan_manager: contract(60)
            }),
        ]
    );
    assert_eq!(LendingPool::get_loan_manager(&mut env, contract(50)), Some(contract(60)));
    assert_eq!(LendingPool::get_loan_manager(&mut env, contract(51)), None);
}

#[test]
fn handover_takes_a_proposal_and_its_acceptance() {
    let mut env = ready();
    assert_eq!(LendingPool::accept_admin(&mut env), Err(PoolError::NoProposedAdmin));
    assert_eq!(env.actions, vec![]);
    LendingPool::propose_admin(&mut env, account(2));
    assert_eq!(LendingPool::get_admin(&mut env), account(1));
    assert_eq!(LendingPool::accept_admin(&mut env), Ok(()));
    assert_eq!(LendingPool::get_admin(&mut env), account(2));
    assert_eq!(
        env.actions,
        vec![
            Action::RequireAuth(account(1)),
            store(DataKey::ProposedAdmin, Value::Party(account(2))),
            Action::Publish(Event::AdminProposed {
                current_admin: account(1),
                proposed_admin: account(2)
            }),
            Action::RequireAuth(account(2)),
            store(DataKey::Admin, Value::Party(account(2))),
            Action::Remove { key: DataKey::ProposedAdmin },
            Action::Publish(Event::AdminTransferred { new_admin: account(2) }),
        ]
    );
    assert_eq!(LendingPool::accept_admin(&mut env), Err(PoolError::NoProposedAdmin));
}

#[test]
fn direct_handover_drops_a_proposal() {
    let mut env = ready();
    LendingPool::propose_admin(&mut env, account(2));
    env.actions.clear();
    LendingPool::set_admin(&mut env, account(3));
    assert_eq!(
        env.actions,
        vec![
            Action::RequireAuth(account(1)),
            store(DataKey::Admin, Value::Party(account(3))),
            Action::Remove { key: DataKey::ProposedAdmin },
            Action::Publish(Event::AdminTransferred { new_admin: account(3) }),
        ]
    );
    assert_eq!(LendingPool::get_admin(&mut env), account(3));
    assert_eq!(LendingPool::accept_admin(&mut env), Err(PoolError::NoProposedAdmin));
}

#[test]
fn pausing_is_announced() {
    let mut env = ready();
    LendingPool::pause(&mut env);
    LendingPool::unpause(&mut env);
    assert_eq!(
        env.actions,
        vec![
            Action::RequireAuth(account(1)),
            store(DataKey::Paused, Value::Flag(true)),
            Action::Publish(Event::PoolPaused),
            Action::RequireAuth(account(1)),
            store(DataKey::Paused, Value::Flag(false)),
            Action::Publish(Event::PoolUnpaused),
        ]
    );
}

#[test]
fn errors_keep_their_numbers() {
    let numbers: Vec<u32> = vec![
        PoolError::AlreadyInitialized,
        PoolError::NotInitialized,
        PoolError::ContractPaused,
        PoolError::InvalidAmount,
        PoolError::PoolSizeExceeded,
        PoolError::InsufficientBalance,
        PoolError::InsufficientLiquidity,
        PoolError::InvalidMaxPoolSize,
        PoolError::NoProposedAdmin,
        PoolError::CooldownTooLong,
        PoolError::NotPaused,
        PoolError::WithdrawalCooldownActive,
    ]
    .into_iter()
    .map(|e| e.code())
    .collect();
    assert_eq!(numbers, vec![1, 2, 3, 4, 5, 6, 7, 9, 10, 11, 12, 13]);
}
