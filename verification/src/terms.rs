//! The terms on which assets move and are reported, in plain numbers.
//!
//! Nothing here leans on the wording of a rule: a quotient is told by what it is times its divisor,
//! and a refusal by the entries and arguments on which it comes.
use vstd::prelude::*;

use crate::address::{Address, Holding};
use crate::data_key::{DataKey, Value};
use crate::env::{Action, EnvView, Event, Pool, Position, TtlExtension};
use crate::error::PoolError;
use crate::math;

verus! {

// Prices

/// A quotient is rounded towards zero.
pub proof fn law_quotients_are_rounded_towards_zero(n: int, d: int)
    requires
        d > 0,
    ensures
        n >= 0 ==> 0 <= math::quotient(n, d) * d <= n < (math::quotient(n, d) + 1) * d,
        n < 0 ==> (math::quotient(n, d) - 1) * d < n <= math::quotient(n, d) * d <= 0,
{
    let a = if n >= 0 {
        n
    } else {
        -n
    };
    let q = a / d;
    assert(0 <= q * d <= a < (q + 1) * d) by (nonlinear_arith)
        requires
            a >= 0,
            d > 0,
            q == a / d,
    ;
    if n < 0 {
        assert(math::quotient(n, d) == -q);
        assert((-q - 1) * d == -((q + 1) * d)) by (nonlinear_arith);
        assert((-q) * d == -(q * d)) by (nonlinear_arith);
    }
}

/// What a part is worth, times the whole, is the part times the total, but for the rounding.
pub proof fn law_parts_are_worth_their_share(part: i128, total: i128, whole: i128)
    requires
        whole > 0,
    ensures
        ({
            let q = math::pro_rata(part as int, total as int, whole as int);
            let n = part * total;
            &&& n >= 0 ==> 0 <= q * whole <= n < (q + 1) * whole
            &&& n < 0 ==> (q - 1) * whole < n <= q * whole <= 0
        }),
{
    law_quotients_are_rounded_towards_zero(part * total, whole as int);
}

/// An amount fits exactly if it lies between the least and the greatest number of its type.
pub proof fn law_amounts_that_fit(n: int)
    ensures
        math::fits(n) <==> i128::MIN <= n <= i128::MAX,
{
}

/// A difference that fits is exact, and one that does not is the nearest number that does.
pub proof fn law_differences_saturate(a: i128, b: i128)
    ensures
        ({
            let r = math::saturating_difference(a as int, b as int);
            &&& i128::MIN <= r <= i128::MAX
            &&& i128::MIN <= a - b <= i128::MAX ==> r == a - b
            &&& a - b > i128::MAX ==> r == i128::MAX
            &&& a - b < i128::MIN ==> r == i128::MIN
        }),
{
}

/// A deposit buys one share for each unit where there are no shares yet, and else the most shares
/// that, at the exchange rate, cost no more than it.
pub proof fn law_shares_are_minted_at_the_exchange_rate(
    amount: i128,
    total_assets: i128,
    total_shares: i128,
)
    requires
        total_shares != 0 ==> total_assets > 0,
    ensures
        ({
            let k = math::shares_bought(amount as int, total_assets as int, total_shares as int);
            let n = amount * total_shares;
            &&& total_shares == 0 ==> k == amount
            &&& total_shares != 0 && n >= 0 ==> k * total_assets <= n < (k + 1) * total_assets
            &&& total_shares != 0 && n < 0 ==> (k - 1) * total_assets < n <= k * total_assets
        }),
{
    if total_shares != 0 {
        law_quotients_are_rounded_towards_zero(amount * total_shares, total_assets as int);
    }
}

/// Shares can be priced exactly if some are outstanding, the assets are not negative and the
/// product can be held. They redeem to the most assets that are no more than their part.
pub proof fn law_shares_redeem_at_the_exchange_rate(
    shares: i128,
    total_assets: i128,
    total_shares: i128,
)
    ensures
        math::can_price(shares as int, total_assets as int, total_shares as int) <==> total_shares
            > 0 && total_assets >= 0 && i128::MIN <= shares * total_assets <= i128::MAX,
        ({
            let q = math::assets_for(shares as int, total_assets as int, total_shares as int);
            let n = shares * total_assets;
            &&& total_shares > 0 && n >= 0 ==> q * total_shares <= n < (q + 1) * total_shares
            &&& total_shares > 0 && n < 0 ==> (q - 1) * total_shares < n <= q * total_shares
        }),
{
    if total_shares > 0 {
        law_quotients_are_rounded_towards_zero(shares * total_assets, total_shares as int);
    }
}

/// What a deposit buys and what shares redeem to is settled by the shares outstanding and the
/// managed assets of the token, and by nothing else.
pub proof fn law_pools_price_by_managed_assets(v: EnvView, token: Address, n: i128)
    ensures
        ({
            let m = v.pool(token).total_managed_assets;
            let t = v.pool(token).total_shares;
            let k = v.minted(token, n as int);
            let q = v.payout(token, n as int);
            &&& t == 0 ==> k == n
            &&& t != 0 && m > 0 && n * t >= 0 ==> k * m <= n * t < (k + 1) * m
            &&& t != 0 && m > 0 && n * t < 0 ==> (k - 1) * m < n * t <= k * m
            &&& t > 0 && n * m >= 0 ==> q * t <= n * m < (q + 1) * t
            &&& t > 0 && n * m < 0 ==> (q - 1) * t < n * m <= q * t
        }),
{
    let p = v.pool(token);
    if p.total_shares == 0 || p.total_managed_assets > 0 {
        law_shares_are_minted_at_the_exchange_rate(n, p.total_managed_assets, p.total_shares);
    }
    law_shares_redeem_at_the_exchange_rate(n, p.total_managed_assets, p.total_shares);
}

// Rows

/// A row that is missing stands for nothing: no cap, no shares, no principal, no assets, no loan
/// manager, no depositors, no deposit ledger.
pub proof fn law_missing_rows_are_empty(v: EnvView, h: Holding)
    ensures
        v.pools.contains_key(h.token) ==> v.pool(h.token) == v.pools[h.token],
        !v.pools.contains_key(h.token) ==> v.pool(h.token) == (Pool {
            max_pool_size: 0,
            total_shares: 0,
            total_deposits: 0,
            total_managed_assets: 0,
            loan_manager: None,
            depositor_count: 0,
        }),
        v.positions.contains_key(h) ==> v.position(h) == v.positions[h],
        !v.positions.contains_key(h) ==> v.position(h) == (Position {
            shares: 0,
            deposit_ledger: None,
        }),
{
}

// Deposits

/// When a deposit is refused, and why. The cap counts principal; a pool without shares opens with
/// at least a thousand; and where there are shares, backed by assets, the deposit must pay for at
/// least one.
pub proof fn law_deposits_are_refused_for_cause_alone(v: EnvView, h: Holding, amount: i128)
    ensures
        ({
            let p = v.pool(h.token);
            let over = p.max_pool_size > 0 && p.total_deposits + amount > p.max_pool_size;
            let small = if p.total_shares == 0 {
                amount < 1_000
            } else {
                amount * p.total_shares < p.total_managed_assets
            };
            let backed = p.total_shares != 0 ==> p.total_managed_assets > 0;
            let r = v.deposit_refusal(h, amount as int);
            &&& r == Some(PoolError::ContractPaused) <==> v.config.paused
            &&& r == Some(PoolError::PoolSizeExceeded) <==> !v.config.paused && amount > 0 && over
            &&& !v.config.paused && amount <= 0 ==> r == Some(PoolError::InvalidAmount)
            &&& backed ==> (r == Some(PoolError::InvalidAmount) <==> !v.config.paused && (amount
                <= 0 || !over && small))
            &&& backed ==> (r is None <==> !v.config.paused && amount > 0 && !over && !small)
        }),
{
    let p = v.pool(h.token);
    law_pools_price_by_managed_assets(v, h.token, amount);
    if p.total_shares != 0 && p.total_managed_assets > 0 {
        lemma_at_least_one(
            v.minted(h.token, amount as int),
            amount * p.total_shares,
            p.total_managed_assets as int,
        );
    }
}

/// A quotient rounded towards zero is one or more exactly if the divisor goes into the number.
proof fn lemma_at_least_one(q: int, n: int, d: int)
    requires
        d > 0,
        n >= 0 ==> q * d <= n < (q + 1) * d,
        n < 0 ==> (q - 1) * d < n <= q * d,
    ensures
        q >= 1 <==> n >= d,
        n >= 0 ==> q >= 0,
{
    assert(n >= 0 && q >= 1 ==> n >= d) by (nonlinear_arith)
        requires
            d > 0,
            n >= 0 ==> q * d <= n,
    ;
    assert(n >= d ==> q >= 1) by (nonlinear_arith)
        requires
            d > 0,
            n >= 0 ==> n < (q + 1) * d,
    ;
    assert(n < 0 ==> q < 1) by (nonlinear_arith)
        requires
            d > 0,
            n < 0 ==> (q - 1) * d < n,
    ;
    assert(n >= 0 ==> q >= 0) by (nonlinear_arith)
        requires
            d > 0,
            n >= 0 ==> n < (q + 1) * d,
    ;
}

/// When a deposit aborts: a sum or product that it needs cannot be held, or there are shares that
/// no assets back. One that is refused before it gets there does not abort.
pub proof fn law_deposits_abort_for_cause_alone(v: EnvView, h: Holding, amount: i128)
    ensures
        ({
            let p = v.pool(h.token);
            let held = v.position(h).shares;
            let k = v.minted(h.token, amount as int);
            let n = amount * p.total_shares;
            let capped = p.max_pool_size > 0;
            let unpriced = p.total_shares != 0 && (p.total_managed_assets <= 0 || n > i128::MAX
                || n < i128::MIN);
            let buys = if p.total_shares == 0 {
                amount >= 1_000
            } else {
                n >= p.total_managed_assets
            };
            v.deposit_traps(h, amount as int) <==> !v.config.paused && amount > 0 && {
                ||| capped && p.total_deposits + amount > i128::MAX
                ||| (!capped || p.total_deposits + amount <= p.max_pool_size) && unpriced
                ||| (!capped || p.total_deposits + amount <= p.max_pool_size) && buys && {
                    ||| held == 0 && p.depositor_count == u32::MAX
                    ||| held + k > i128::MAX
                    ||| p.total_shares + k > i128::MAX
                    ||| p.total_deposits + amount > i128::MAX
                    ||| p.total_managed_assets + amount > i128::MAX
                }
            }
        }),
{
    let p = v.pool(h.token);
    law_pools_price_by_managed_assets(v, h.token, amount);
    if p.total_shares != 0 && p.total_managed_assets > 0 {
        lemma_at_least_one(
            v.minted(h.token, amount as int),
            amount * p.total_shares,
            p.total_managed_assets as int,
        );
    }
}

/// What an accepted deposit leaves behind: its amount in principal and managed assets alike, the
/// shares that it bought in the holding and in the total, one depositor more if the holding was
/// empty, and the ledger in which it was made. Nothing else changes.
pub proof fn law_deposits_join_the_pool(v: EnvView, h: Holding, amount: i128, other: Holding)
    requires
        !v.deposit_traps(h, amount as int),
        v.deposit_refusal(h, amount as int) is None,
    ensures
        ({
            let w = v.after_deposit(h, amount as int);
            let k = v.minted(h.token, amount as int);
            let p = v.pool(h.token);
            let q = w.pool(h.token);
            let kept = TtlExtension { threshold: 17_280, extend_to: 518_400 };
            &&& q.total_shares == p.total_shares + k
            &&& q.total_deposits == p.total_deposits + amount
            &&& q.total_managed_assets == p.total_managed_assets + amount
            &&& q.depositor_count == p.depositor_count + (if v.position(h).shares == 0 {
                1int
            } else {
                0
            })
            &&& q.max_pool_size == p.max_pool_size
            &&& q.loan_manager == p.loan_manager
            &&& w.position(h).shares == v.position(h).shares + k
            &&& w.position(h).deposit_ledger == Some(v.sequence)
            &&& other != h ==> w.position(other) == v.position(other)
            &&& other.token != h.token ==> w.pool(other.token) == v.pool(other.token)
            &&& w.config == v.config
            &&& w.contract == v.contract
            &&& w.sequence == v.sequence
            &&& w.balances == v.balances
            &&& w.instance_ttl == Some(kept)
            &&& w.entry_ttl == v.entry_ttl.insert(
                DataKey::Shares(h.provider, h.token),
                kept,
            ).insert(DataKey::DepositTimestamp(h.provider, h.token), kept)
        }),
{
}

/// What a deposit asks of the ledger, in this order: the provider's authorisation, the transfer of
/// the whole amount to the contract, the writes, and the event.
pub proof fn law_deposits_ask_for_their_amount(v: EnvView, h: Holding, amount: i128)
    requires
        !v.deposit_traps(h, amount as int),
        v.deposit_refusal(h, amount as int) is None,
    ensures
        ({
            let w = v.after_deposit(h, amount as int);
            let q = w.pool(h.token);
            let count = Action::Store {
                key: DataKey::DepositorCount(h.token),
                value: Value::Number(q.depositor_count),
            };
            w.actions == v.actions + seq![
                Action::RequireAuth(h.provider),
                Action::Transfer { token: h.token, from: h.provider, to: v.contract, amount },
            ] + (if v.position(h).shares == 0 {
                seq![count]
            } else {
                seq![]
            }) + seq![
                Action::Store {
                    key: DataKey::Shares(h.provider, h.token),
                    value: Value::Amount(w.position(h).shares),
                },
                Action::Store {
                    key: DataKey::DepositTimestamp(h.provider, h.token),
                    value: Value::Number(v.sequence),
                },
                Action::Store {
                    key: DataKey::TotalShares(h.token),
                    value: Value::Amount(q.total_shares),
                },
                Action::Store {
                    key: DataKey::TotalDeposits(h.token),
                    value: Value::Amount(q.total_deposits),
                },
                Action::Store {
                    key: DataKey::TotalManagedAssets(h.token),
                    value: Value::Amount(q.total_managed_assets),
                },
                Action::Publish(
                    Event::Deposit {
                        provider: h.provider,
                        token: h.token,
                        amount,
                        shares: (w.position(h).shares - v.position(h).shares) as i128,
                    },
                ),
            ]
        }),
{
}

/// A refused deposit asks for the provider's authorisation and keeps the contract alive. It does
/// nothing else.
pub proof fn law_refused_deposits_do_nothing(v: EnvView, h: Holding, amount: i128)
    requires
        v.deposit_refusal(h, amount as int) is Some,
    ensures
        v.after_deposit(h, amount as int) == (EnvView {
            actions: v.actions.push(Action::RequireAuth(h.provider)),
            instance_ttl: Some(TtlExtension { threshold: 17_280, extend_to: 518_400 }),
            ..v
        }),
{
}

// Redemptions

/// When a redemption can be priced, and why not. The holding must cover it; shares must be
/// outstanding and assets not negative; the product must be one that can be held; and the shares
/// must be worth at least one asset.
pub proof fn law_redemptions_are_priced_for_all_who_hold(v: EnvView, h: Holding, shares: i128)
    ensures
        ({
            let t = v.pool(h.token).total_shares;
            let m = v.pool(h.token).total_managed_assets;
            let held = v.position(h).shares;
            let worth = t > 0 && m >= 0 && t <= shares * m <= i128::MAX;
            let r = v.pricing_refusal(h, shares as int);
            &&& r == Some(PoolError::InsufficientBalance) <==> shares > 0 && held < shares
            &&& r == Some(PoolError::InvalidAmount) <==> shares <= 0 || held >= shares && !worth
            &&& r is None <==> 0 < shares <= held && worth
        }),
{
    let p = v.pool(h.token);
    law_pools_price_by_managed_assets(v, h.token, shares);
    if p.total_shares > 0 {
        lemma_at_least_one(
            v.payout(h.token, shares as int),
            shares * p.total_managed_assets,
            p.total_shares as int,
        );
        if shares > 0 && p.total_managed_assets >= 0 {
            assert(shares * p.total_managed_assets >= 0) by (nonlinear_arith)
                requires
                    shares > 0,
                    p.total_managed_assets >= 0,
            ;
        }
    }
}

/// When a redemption is refused, and why: where it cannot be priced, and where the balance is less
/// than its part of the managed assets, rounded down.
pub proof fn law_redemptions_are_refused_for_cause_alone(v: EnvView, h: Holding, shares: i128)
    ensures
        ({
            let t = v.pool(h.token).total_shares;
            let m = v.pool(h.token).total_managed_assets;
            let held = v.position(h).shares;
            let worth = t > 0 && m >= 0 && t <= shares * m <= i128::MAX;
            let short = shares * m >= (v.balances[h.token] + 1) * t;
            let r = v.redemption_refusal(h, shares as int);
            &&& r == Some(PoolError::InsufficientBalance) <==> shares > 0 && held < shares
            &&& r == Some(PoolError::InvalidAmount) <==> shares <= 0 || held >= shares && !worth
            &&& r == Some(PoolError::InsufficientLiquidity) <==> 0 < shares <= held && worth
                && short
            &&& r is None <==> 0 < shares <= held && worth && !short
        }),
{
    let p = v.pool(h.token);
    law_redemptions_are_priced_for_all_who_hold(v, h, shares);
    law_pools_price_by_managed_assets(v, h.token, shares);
    if v.pricing_refusal(h, shares as int) is None {
        let q = v.payout(h.token, shares as int);
        let n = shares * p.total_managed_assets;
        let t = p.total_shares as int;
        let b = v.balances[h.token] as int;
        assert(b < q ==> n >= (b + 1) * t) by (nonlinear_arith)
            requires
                q * t <= n,
                t > 0,
        ;
        assert(b >= q ==> n < (b + 1) * t) by (nonlinear_arith)
            requires
                n < (q + 1) * t,
                t > 0,
        ;
    }
}

/// When a withdrawal is refused, and why. A cooldown of `c` ledgers that a deposit in ledger `d`
/// began holds in every ledger before `d + c`, whatever `c` the admin has set, though never in the
/// last ledger that can be numbered; with no cooldown set, or no deposit noted, nothing holds.
pub proof fn law_withdrawals_are_refused_for_cause_alone(v: EnvView, h: Holding, shares: i128)
    ensures
        ({
            let c = v.config.withdrawal_cooldown;
            let early = c > 0 && v.position(h).deposit_ledger is Some && v.sequence < v.position(
                h,
            ).deposit_ledger->0 + c && v.sequence < u32::MAX;
            let t = v.pool(h.token).total_shares;
            let m = v.pool(h.token).total_managed_assets;
            let held = v.position(h).shares;
            let worth = t > 0 && m >= 0 && t <= shares * m <= i128::MAX;
            let short = shares * m >= (v.balances[h.token] + 1) * t;
            let open = !v.config.paused && !early;
            let r = v.withdrawal_refusal(h, shares as int);
            &&& r == Some(PoolError::ContractPaused) <==> v.config.paused
            &&& r == Some(PoolError::WithdrawalCooldownActive) <==> !v.config.paused && early
            &&& r == Some(PoolError::InsufficientBalance) <==> open && shares > 0 && held < shares
            &&& r == Some(PoolError::InvalidAmount) <==> open && (shares <= 0 || held >= shares
                && !worth)
            &&& r == Some(PoolError::InsufficientLiquidity) <==> open && 0 < shares <= held
                && worth && short
            &&& r is None <==> open && 0 < shares <= held && worth && !short
            &&& v.withdrawal_asks_balance(h, shares as int) <==> open && 0 < shares <= held
                && worth
            &&& v.withdrawal_liquidity_known(h, shares as int) <==> (open && 0 < shares <= held
                && worth ==> v.balances.contains_key(h.token))
        }),
{
    law_redemptions_are_priced_for_all_who_hold(v, h, shares);
    law_redemptions_are_refused_for_cause_alone(v, h, shares);
}

/// After a deposit in ledger `d` under a cooldown of `c` ledgers, withdrawals come too early in
/// just the ledgers before `d + c`, and a later change of the cooldown to another `c` moves that
/// end along.
pub proof fn law_cooldown_is_the_configured_one(
    v: EnvView,
    h: Holding,
    amount: i128,
    c: u32,
    sequence: u32,
    shares: i128,
)
    requires
        !v.deposit_traps(h, amount as int),
        v.deposit_refusal(h, amount as int) is None,
        v.config.admin is Some,
        c <= 518_400,
    ensures
        ({
            let deposited = v.after_deposit(h, amount as int);
            let set = deposited.after_set_withdrawal_cooldown(c);
            let later = EnvView { sequence, ..set };
            later.withdrawal_refusal(h, shares as int) == Some(
                PoolError::WithdrawalCooldownActive,
            ) <==> c > 0 && sequence < v.sequence + c && sequence < u32::MAX
        }),
{
    let deposited = v.after_deposit(h, amount as int);
    let set = deposited.after_set_withdrawal_cooldown(c);
    law_withdrawals_are_refused_for_cause_alone(EnvView { sequence, ..set }, h, shares);
}

/// When an emergency withdrawal is refused, and why: while the contract is not paused, and else
/// for what is wrong with the redemption alone.
pub proof fn law_emergencies_are_refused_for_cause_alone(v: EnvView, h: Holding, shares: i128)
    ensures
        ({
            let t = v.pool(h.token).total_shares;
            let m = v.pool(h.token).total_managed_assets;
            let held = v.position(h).shares;
            let worth = t > 0 && m >= 0 && t <= shares * m <= i128::MAX;
            let short = shares * m >= (v.balances[h.token] + 1) * t;
            let open = v.config.paused;
            let r = v.emergency_refusal(h, shares as int);
            &&& r == Some(PoolError::NotPaused) <==> !v.config.paused
            &&& r == Some(PoolError::InsufficientBalance) <==> open && shares > 0 && held < shares
            &&& r == Some(PoolError::InvalidAmount) <==> open && (shares <= 0 || held >= shares
                && !worth)
            &&& r == Some(PoolError::InsufficientLiquidity) <==> open && 0 < shares <= held
                && worth && short
            &&& r is None <==> open && 0 < shares <= held && worth && !short
            &&& v.emergency_asks_balance(h, shares as int) <==> open && 0 < shares <= held && worth
            &&& v.emergency_liquidity_known(h, shares as int) <==> (open && 0 < shares <= held
                && worth ==> v.balances.contains_key(h.token))
        }),
{
    law_redemptions_are_priced_for_all_who_hold(v, h, shares);
    law_redemptions_are_refused_for_cause_alone(v, h, shares);
}

/// When a redemption aborts: the product of shares and principal cannot be held, the last share of
/// a holding is burnt where no depositor is counted, or shares stay without a deposit ledger to
/// keep alive. One that is refused does not abort.
pub proof fn law_redemptions_abort_for_cause_alone(v: EnvView, h: Holding, shares: i128)
    ensures
        ({
            let p = v.pool(h.token);
            let held = v.position(h).shares;
            let n = shares * p.total_deposits;
            let broken = n > i128::MAX || n < i128::MIN || held == shares && p.depositor_count == 0
                || held != shares && v.position(h).deposit_ledger is None;
            &&& v.redemption_traps(h, shares as int) <==> v.redemption_refusal(h, shares as int)
                is None && broken
            &&& v.withdrawal_traps(h, shares as int) <==> v.withdrawal_refusal(h, shares as int)
                is None && broken
            &&& v.emergency_traps(h, shares as int) <==> v.emergency_refusal(h, shares as int)
                is None && broken
        }),
{
}

/// What an accepted redemption leaves behind. The payout is the shares' part of the managed
/// assets, and the principal that goes is their part of the principal, both rounded towards zero;
/// the shares are gone from the holding and from the total; and a holding without shares is gone
/// with its depositor. Nothing else changes.
pub proof fn law_redemptions_leave_the_pool(v: EnvView, h: Holding, shares: i128, other: Holding)
    requires
        !v.redemption_traps(h, shares as int),
        v.redemption_refusal(h, shares as int) is None,
    ensures
        ({
            let w = v.after_redemption(h, shares as int);
            let p = v.pool(h.token);
            let q = w.pool(h.token);
            let t = p.total_shares;
            let paid = p.total_managed_assets - q.total_managed_assets;
            let principal = p.total_deposits - q.total_deposits;
            let owed = shares * p.total_managed_assets;
            let share = shares * p.total_deposits;
            let all = v.position(h).shares == shares;
            let kept = TtlExtension { threshold: 17_280, extend_to: 518_400 };
            let shares_key = DataKey::Shares(h.provider, h.token);
            let ledger_key = DataKey::DepositTimestamp(h.provider, h.token);
            &&& paid == v.payout(h.token, shares as int)
            &&& paid * t <= owed < (paid + 1) * t
            &&& share >= 0 ==> principal * t <= share < (principal + 1) * t
            &&& share < 0 ==> (principal - 1) * t < share <= principal * t
            &&& q.total_shares == t - shares
            &&& q.depositor_count == p.depositor_count - (if all {
                1int
            } else {
                0
            })
            &&& q.max_pool_size == p.max_pool_size
            &&& q.loan_manager == p.loan_manager
            &&& w.position(h).shares == v.position(h).shares - shares
            &&& w.position(h).deposit_ledger == if all {
                None
            } else {
                v.position(h).deposit_ledger
            }
            &&& w.positions.contains_key(h) <==> !all
            &&& other != h ==> w.position(other) == v.position(other)
            &&& other.token != h.token ==> w.pool(other.token) == v.pool(other.token)
            &&& w.config == v.config
            &&& w.contract == v.contract
            &&& w.sequence == v.sequence
            &&& w.balances == v.balances
            &&& w.instance_ttl == Some(kept)
            &&& w.entry_ttl == if all {
                v.entry_ttl.remove(shares_key).remove(ledger_key)
            } else {
                v.entry_ttl.insert(shares_key, kept).insert(ledger_key, kept)
            }
        }),
{
    let p = v.pool(h.token);
    let t = p.total_shares as int;
    let share = shares * p.total_deposits;
    law_redemptions_are_refused_for_cause_alone(v, h, shares);
    law_pools_price_by_managed_assets(v, h.token, shares);
    lemma_at_least_one(
        v.payout(h.token, shares as int),
        shares * p.total_managed_assets,
        t,
    );
    math::lemma_quotient_bounds(shares * p.total_managed_assets, t);
    math::lemma_quotient_bounds(share, t);
    law_quotients_are_rounded_towards_zero(share, t);
    assert(p.total_deposits >= 0 ==> share >= 0) by (nonlinear_arith)
        requires
            shares > 0,
            share == shares * p.total_deposits,
    ;
    assert(p.total_deposits < 0 ==> share < 0) by (nonlinear_arith)
        requires
            shares > 0,
            share == shares * p.total_deposits,
    ;
}

/// What an accepted redemption asks of the ledger, in this order: the writes, and only then the
/// transfer of just what the managed assets shrank by.
pub proof fn law_redemptions_ask_for_their_payout(v: EnvView, h: Holding, shares: i128)
    requires
        v.redemption_refusal(h, shares as int) is None,
    ensures
        ({
            let w = v.after_redemption(h, shares as int);
            let q = w.pool(h.token);
            w.actions == v.actions + (if v.position(h).shares == shares {
                seq![
                    Action::Remove { key: DataKey::Shares(h.provider, h.token) },
                    Action::Remove { key: DataKey::DepositTimestamp(h.provider, h.token) },
                    Action::Store {
                        key: DataKey::DepositorCount(h.token),
                        value: Value::Number(q.depositor_count),
                    },
                ]
            } else {
                seq![
                    Action::Store {
                        key: DataKey::Shares(h.provider, h.token),
                        value: Value::Amount(w.position(h).shares),
                    },
                ]
            }) + seq![
                Action::Store {
                    key: DataKey::TotalShares(h.token),
                    value: Value::Amount(q.total_shares),
                },
                Action::Store {
                    key: DataKey::TotalManagedAssets(h.token),
                    value: Value::Amount(q.total_managed_assets),
                },
                Action::Store {
                    key: DataKey::TotalDeposits(h.token),
                    value: Value::Amount(q.total_deposits),
                },
                Action::Transfer {
                    token: h.token,
                    from: v.contract,
                    to: h.provider,
                    amount: v.payout(h.token, shares as int) as i128,
                },
            ]
        }),
{
}

/// A refused redemption keeps alive what it read. It does nothing else.
pub proof fn law_refused_redemptions_do_nothing(v: EnvView, h: Holding, shares: i128)
    requires
        v.redemption_refusal(h, shares as int) is Some,
    ensures
        ({
            let kept = TtlExtension { threshold: 17_280, extend_to: 518_400 };
            let held = v.position(h).shares;
            v.after_redemption(h, shares as int) == (EnvView {
                instance_ttl: if 0 < shares <= held {
                    Some(kept)
                } else {
                    v.instance_ttl
                },
                entry_ttl: if shares > 0 && held > 0 {
                    v.entry_ttl.insert(DataKey::Shares(h.provider, h.token), kept)
                } else {
                    v.entry_ttl
                },
                ..v
            })
        }),
{
}

/// An accepted withdrawal is a redemption that the provider authorises first and that an event
/// tells of last; and so is an emergency withdrawal, with an event of its own.
pub proof fn law_withdrawals_are_redemptions(v: EnvView, h: Holding, shares: i128)
    ensures
        v.withdrawal_refusal(h, shares as int) is None ==> ({
            let w = v.after_withdrawal(h, shares as int);
            let r = v.after_redemption(h, shares as int);
            &&& v.redemption_refusal(h, shares as int) is None
            &&& w == (EnvView { actions: w.actions, ..r })
            &&& w.actions == v.actions.push(Action::RequireAuth(h.provider)) + r.actions.skip(
                v.actions.len() as int,
            ).push(
                Action::Publish(
                    Event::Withdraw {
                        provider: h.provider,
                        token: h.token,
                        amount: v.payout(h.token, shares as int) as i128,
                        shares,
                    },
                ),
            )
        }),
        v.emergency_refusal(h, shares as int) is None ==> ({
            let w = v.after_emergency(h, shares as int);
            let r = v.after_redemption(h, shares as int);
            &&& v.redemption_refusal(h, shares as int) is None
            &&& w == (EnvView { actions: w.actions, ..r })
            &&& w.actions == v.actions.push(Action::RequireAuth(h.provider)) + r.actions.skip(
                v.actions.len() as int,
            ).push(
                Action::Publish(
                    Event::EmergencyWithdraw {
                        provider: h.provider,
                        token: h.token,
                        amount: v.payout(h.token, shares as int) as i128,
                        shares,
                    },
                ),
            )
        }),
{
}

/// A refused withdrawal asks for the provider's authorisation and keeps alive what it read: the
/// contract in any case; the deposit ledger where a cooldown is set and the contract is not paused;
/// the shares where it got to them. It does nothing else. And so with an emergency withdrawal.
pub proof fn law_refused_withdrawals_do_nothing(v: EnvView, h: Holding, shares: i128)
    ensures
        ({
            let kept = TtlExtension { threshold: 17_280, extend_to: 518_400 };
            let shares_key = DataKey::Shares(h.provider, h.token);
            let ledger_key = DataKey::DepositTimestamp(h.provider, h.token);
            let c = v.config.withdrawal_cooldown;
            let refusal = v.withdrawal_refusal(h, shares as int);
            let looked = if !v.config.paused && c > 0 && v.position(h).deposit_ledger is Some {
                v.entry_ttl.insert(ledger_key, kept)
            } else {
                v.entry_ttl
            };
            let reached = shares > 0 && v.position(h).shares > 0;
            let asked = EnvView {
                actions: v.actions.push(Action::RequireAuth(h.provider)),
                instance_ttl: Some(kept),
                ..v
            };
            &&& refusal is Some ==> v.after_withdrawal(h, shares as int) == (EnvView {
                entry_ttl: if refusal != Some(PoolError::ContractPaused) && refusal != Some(
                    PoolError::WithdrawalCooldownActive,
                ) && reached {
                    looked.insert(shares_key, kept)
                } else {
                    looked
                },
                ..asked
            })
            &&& v.emergency_refusal(h, shares as int) is Some ==> v.after_emergency(
                h,
                shares as int,
            ) == (EnvView {
                entry_ttl: if v.config.paused && reached {
                    v.entry_ttl.insert(shares_key, kept)
                } else {
                    v.entry_ttl
                },
                ..asked
            })
        }),
{
    law_withdrawals_are_refused_for_cause_alone(v, h, shares);
    law_emergencies_are_refused_for_cause_alone(v, h, shares);
}

// Yield

/// When a report of yield is refused, when it aborts, and whose authorisation it takes: that of the
/// loan manager, or of the admin while there is none. While the contract is not paused, a positive
/// amount for a token with shares outstanding is accepted, however large, as long as it fits.
pub proof fn law_yield_is_refused_for_cause_alone(v: EnvView, token: Address, amount: i128)
    ensures
        ({
            let p = v.pool(token);
            let r = v.yield_refusal(token, amount as int);
            &&& r == Some(PoolError::ContractPaused) <==> v.config.paused
            &&& r == Some(PoolError::InvalidAmount) <==> !v.config.paused && (amount <= 0
                || p.total_shares <= 0)
            &&& r is None <==> !v.config.paused && amount > 0 && p.total_shares > 0
            &&& v.yield_traps(token, amount as int) <==> {
                ||| p.loan_manager is None && v.config.admin is None
                ||| !v.config.paused && amount > 0 && p.total_shares > 0 && p.total_managed_assets
                    + amount > i128::MAX
            }
            &&& v.yield_reporter(token) == if p.loan_manager is Some {
                p.loan_manager
            } else {
                v.config.admin
            }
        }),
{
}

/// What an accepted report of yield leaves behind: just that much more in the managed assets,
/// authorised by the loan manager or else the admin, written, and told of. A refused one leaves no
/// more than the request for the authorisation.
pub proof fn law_yield_joins_the_managed_assets(
    v: EnvView,
    token: Address,
    amount: i128,
    other: Address,
)
    requires
        !v.yield_traps(token, amount as int),
    ensures
        ({
            let w = v.after_yield(token, amount as int);
            let p = v.pool(token);
            let q = w.pool(token);
            let reporter = if p.loan_manager is Some {
                p.loan_manager->0
            } else {
                v.config.admin->0
            };
            let asked = v.actions.push(Action::RequireAuth(reporter));
            let taken = !v.config.paused && amount > 0 && p.total_shares > 0;
            &&& taken ==> q.total_managed_assets == p.total_managed_assets + amount
            &&& !taken ==> q.total_managed_assets == p.total_managed_assets
            &&& q == (Pool { total_managed_assets: q.total_managed_assets, ..p })
            &&& other != token ==> w.pool(other) == v.pool(other)
            &&& taken ==> w.actions == asked.push(
                Action::Store {
                    key: DataKey::TotalManagedAssets(token),
                    value: Value::Amount(q.total_managed_assets),
                },
            ).push(Action::Publish(Event::YieldDistributed { token, amount }))
            &&& !taken ==> w.actions == asked
            &&& w == (EnvView {
                actions: w.actions,
                pools: w.pools,
                instance_ttl: Some(TtlExtension { threshold: 17_280, extend_to: 518_400 }),
                ..v
            })
        }),
{
}

// Reports

/// What a holding is reported to be worth: its shares' part of the managed assets, rounded towards
/// zero, wherever they can be priced, and nothing where they cannot.
pub proof fn law_holdings_are_reported_at_their_part(v: EnvView, h: Holding)
    ensures
        ({
            let t = v.pool(h.token).total_shares;
            let m = v.pool(h.token).total_managed_assets;
            let n = v.position(h).shares * m;
            let value = v.stake_value(h);
            let priced = t > 0 && m >= 0 && i128::MIN <= n <= i128::MAX;
            &&& priced && n >= 0 ==> value * t <= n < (value + 1) * t
            &&& priced && n < 0 ==> (value - 1) * t < n <= value * t
            &&& !priced ==> value == 0
        }),
{
    law_pools_price_by_managed_assets(v, h.token, v.position(h).shares);
}

/// What a holding is reported to be worth is what redeeming the whole of it pays.
pub proof fn law_holdings_are_reported_at_what_they_pay(v: EnvView, h: Holding)
    requires
        v.pricing_refusal(h, v.position(h).shares as int) is None,
    ensures
        v.stake_value(h) == v.payout(h.token, v.position(h).shares as int),
        v.redemption_refusal(h, v.position(h).shares as int) is None ==> v.after_redemption(
            h,
            v.position(h).shares as int,
        ).actions.last() == (Action::Transfer {
            token: h.token,
            from: v.contract,
            to: h.provider,
            amount: v.stake_value(h) as i128,
        }),
        v.redemption_refusal(h, v.position(h).shares as int) is None <==> v.balances[h.token]
            >= v.stake_value(h),
{
    law_redemptions_are_priced_for_all_who_hold(v, h, v.position(h).shares);
}

/// What reading a holding keeps alive: the shares, if there are any; and the contract too, where
/// they were also priced.
pub proof fn law_reading_keeps_alive(v: EnvView, h: Holding)
    ensures
        ({
            let kept = TtlExtension { threshold: 17_280, extend_to: 518_400 };
            let held = v.position(h).shares;
            let entry_ttl = if held > 0 {
                v.entry_ttl.insert(DataKey::Shares(h.provider, h.token), kept)
            } else {
                v.entry_ttl
            };
            &&& v.bumped() == (EnvView { instance_ttl: Some(kept), ..v })
            &&& v.shares_read(h) == (EnvView { entry_ttl, ..v })
            &&& held != 0 ==> v.stake_read(h) == (EnvView {
                entry_ttl,
                instance_ttl: Some(kept),
                ..v
            })
            &&& held == 0 ==> v.stake_read(h) == v
        }),
{
}

/// The price of a share is its part of the managed assets in millionths, rounded towards zero, and
/// a million where there are no shares. It cannot be told where that many millionths cannot be
/// held.
pub proof fn law_share_price_is_in_millionths(p: Pool)
    ensures
        ({
            let t = p.total_shares;
            let n = p.total_managed_assets * 1_000_000;
            let price = p.share_price();
            &&& t <= 0 ==> price == 1_000_000
            &&& t > 0 && n >= 0 ==> price * t <= n < (price + 1) * t
            &&& t > 0 && n < 0 ==> (price - 1) * t < n <= price * t
            &&& p.share_price_traps() <==> t > 0 && (n > i128::MAX || n < i128::MIN)
        }),
{
    if p.total_shares > 0 {
        law_quotients_are_rounded_towards_zero(
            p.total_managed_assets * 1_000_000,
            p.total_shares as int,
        );
    }
}

/// Utilisation is the principal not at hand in ten-thousandths of the principal, rounded down, and
/// nought where the balance covers the principal. It cannot be told where that many ten-thousandths
/// cannot be held.
pub proof fn law_utilization_is_the_principal_not_at_hand(p: Pool, balance: i128)
    ensures
        ({
            let d = p.total_deposits;
            let n = (d - balance) * 10_000;
            let u = p.utilization(balance as int);
            let lent = d > 0 && balance < d;
            &&& lent ==> u * d <= n < (u + 1) * d
            &&& !lent ==> u == 0
            &&& p.utilization_traps(balance as int) <==> lent && n > i128::MAX
            &&& lent && balance >= 0 ==> u <= 10_000
        }),
{
    let d = p.total_deposits as int;
    if d > 0 && balance < d {
        let n = (d - balance) * 10_000;
        let u = n / d;
        assert(u * d <= n < (u + 1) * d) by (nonlinear_arith)
            requires
                d > 0,
                n >= 0,
                u == n / d,
        ;
        assert(balance >= 0 ==> u <= 10_000) by (nonlinear_arith)
            requires
                d > 0,
                n == (d - balance) * 10_000,
                u * d <= n,
        ;
    }
}

/// More lent is never reported as less utilised.
pub proof fn law_utilization_rises_as_the_balance_falls(p: Pool, less: i128, more: i128)
    requires
        less <= more,
    ensures
        p.utilization(less as int) >= p.utilization(more as int),
{
    let d = p.total_deposits as int;
    let u = p.utilization(less as int);
    let w = p.utilization(more as int);
    law_utilization_is_the_principal_not_at_hand(p, less);
    law_utilization_is_the_principal_not_at_hand(p, more);
    if d > 0 && less < d {
        let n = (d - less) * 10_000;
        let k = if more < d {
            (d - more) * 10_000
        } else {
            0
        };
        assert(w == 0 ==> w * d == 0) by (nonlinear_arith);
        assert(u >= w) by (nonlinear_arith)
            requires
                d > 0,
                n < (u + 1) * d,
                w * d <= k,
                k <= n,
        ;
    }
}

/// A pool is over its cap exactly if it has one and its principal is greater.
pub proof fn law_over_cap_is_principal_beyond_it(p: Pool)
    ensures
        p.over_cap() <==> p.max_pool_size != 0 && p.total_deposits > p.max_pool_size,
{
}

} // verus!
