use lending_pool::{Address, AddressKind, Env, LendingPool, Pool, PoolError, PoolStats, Table};

fn token() -> Address {
    Address { kind: AddressKind::Contract, hi: 0, lo: 5 }
}

fn with_pool(total_shares: i128, total_deposits: i128, total_managed_assets: i128) -> Env {
    let mut env = Env::new(Address { kind: AddressKind::Contract, hi: 0, lo: 1 }, 1);
    env.put_pool(
        token(),
        Pool {
            max_pool_size: 0,
            total_shares,
            total_deposits,
            total_managed_assets,
            loan_manager: None,
            depositor_count: 3,
        },
    );
    env
}

#[test]
fn shares_to_mint() {
    assert_eq!(LendingPool::calc_shares_to_mint(1_234, 0, 0), 1_234);
    assert_eq!(LendingPool::calc_shares_to_mint(1_234, 77, 0), 1_234);
    assert_eq!(LendingPool::calc_shares_to_mint(100, 1_000, 1_000), 100);
    assert_eq!(LendingPool::calc_shares_to_mint(100, 1_500, 1_000), 66);
    assert_eq!(LendingPool::calc_shares_to_mint(1, 1_500, 1_000), 0);
    assert_eq!(LendingPool::calc_shares_to_mint(-100, 1_500, 1_000), -66);
}

#[test]
fn assets_to_redeem() {
    assert_eq!(LendingPool::calc_assets_to_redeem(100, 1_500, 1_000), Ok(150));
    assert_eq!(LendingPool::calc_assets_to_redeem(1, 999, 1_000), Ok(0));
    assert_eq!(LendingPool::calc_assets_to_redeem(-1, 1_500, 1_000), Ok(-1));
    assert_eq!(LendingPool::calc_assets_to_redeem(5, 0, 10), Ok(0));
    assert_eq!(
        LendingPool::calc_assets_to_redeem(100, 1_500, 0),
        Err(PoolError::InvalidAmount)
    );
    assert_eq!(
        LendingPool::calc_assets_to_redeem(100, 1_500, -1),
        Err(PoolError::InvalidAmount)
    );
    assert_eq!(
        LendingPool::calc_assets_to_redeem(100, -1, 1_000),
        Err(PoolError::InvalidAmount)
    );
    assert_eq!(
        LendingPool::calc_assets_to_redeem(i128::MAX, 2, 1_000),
        Err(PoolError::InvalidAmount)
    );
}

#[test]
fn share_price_without_shares_is_one() {
    let mut env = with_pool(0, 0, 0);
    assert_eq!(LendingPool::get_share_price(&mut env, token()), 1_000_000);
    let mut odd = with_pool(-4, 0, 9);
    assert_eq!(LendingPool::get_share_price(&mut odd, token()), 1_000_000);
}

#[test]
fn share_price_is_assets_per_share() {
    let mut env = with_pool(3, 4, 4);
    assert_eq!(LendingPool::get_share_price(&mut env, token()), 1_333_333);
    let large = with_pool(3, 4, i128::MAX / 1_000_000 + 1);
    assert!(LendingPool::get_share_price_would_trap(&large, token()));
    let fits = with_pool(3, 4, i128::MAX / 1_000_000);
    assert!(!LendingPool::get_share_price_would_trap(&fits, token()));
}

#[test]
fn utilisation_is_the_principal_not_at_hand() {
    let mut env = with_pool(1_000, 3_000, 3_100);
    env.set_balance(token(), 1_000);
    assert_eq!(
        LendingPool::get_pool_stats(&mut env, token()),
        PoolStats {
            total_deposits: 3_000,
            total_shares: 1_000,
            pool_token_balance: 1_000,
            depositor_count: 3,
            utilization_bps: 6_666,
        }
    );
    assert_eq!(LendingPool::pool_balance(&env, token()), 1_000);
    env.set_balance(token(), 0);
    assert_eq!(LendingPool::get_pool_stats(&mut env, token()).utilization_bps, 10_000);
    env.set_balance(token(), 3_000);
    assert_eq!(LendingPool::get_pool_stats(&mut env, token()).utilization_bps, 0);
    env.set_balance(token(), 9_000);
    assert_eq!(LendingPool::get_pool_stats(&mut env, token()).utilization_bps, 0);
}

#[test]
fn utilisation_of_an_odd_balance() {
    // A token that reports a negative balance.
    let mut env = with_pool(1, 1, 1);
    env.set_balance(token(), -429_496);
    assert!(!LendingPool::get_pool_stats_would_trap(&env, token()));
    assert_eq!(
        LendingPool::get_pool_stats(&mut env, token()).utilization_bps,
        (4_294_970_000i128 - 4_294_967_296) as u32
    );
    env.set_balance(token(), i128::MIN);
    assert!(LendingPool::get_pool_stats_would_trap(&env, token()));
    env.set_balance(token(), -(i128::MAX / 10_000) + 1);
    assert!(!LendingPool::get_pool_stats_would_trap(&env, token()));
    env.set_balance(token(), -(i128::MAX / 10_000));
    assert!(LendingPool::get_pool_stats_would_trap(&env, token()));
}

#[test]
fn pool_without_principal_has_no_utilisation() {
    let mut env = with_pool(0, 0, 0);
    env.set_balance(token(), 0);
    assert_eq!(LendingPool::get_pool_stats(&mut env, token()).utilization_bps, 0);
}

#[test]
fn table_rows_are_replaced_and_removed() {
    let a = Address { kind: AddressKind::Account, hi: 1, lo: 1 };
    let b = Address { kind: AddressKind::Account, hi: 1, lo: 2 };
    let mut table: Table<Address, i128> = Table::new();
    assert_eq!(table.get(&a), None);
    table.insert(a, 1);
    table.insert(b, 2);
    table.insert(a, 3);
    assert_eq!(table.get(&a), Some(3));
    table.remove(&a);
    assert_eq!(table.get(&a), None);
    assert_eq!(table.get(&b), Some(2));
    table.remove(&a);
    assert_eq!(table.get(&b), Some(2));
}
