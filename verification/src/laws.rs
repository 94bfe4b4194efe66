//! What the pool promises to those who use it.
use vstd::prelude::*;

use crate::accounts;
use crate::address::{Address, Holding};
use crate::data_key::{DataKey, Value};
use crate::env::{Action, Config, EnvView, Event, Pool, Position};
use crate::error::PoolError;
use crate::math;
use crate::rules::MINIMUM_INITIAL_DEPOSIT;
use crate::steps::Step;
use crate::tally;

verus! {

/// Counts what the holdings of `token` redeem to while `shares` are backed by `assets`.
pub open spec fn value_of(token: Address, assets: int, shares: int) -> spec_fn(
    Holding,
    Position,
) -> int {
    |h: Holding, p: Position|
        if h.token == token {
            math::assets_for(p.shares as int, assets, shares)
        } else {
            0
        }
}

impl EnvView {
    /// What all holdings of `token` redeem to, taken one by one.
    pub open spec fn value_held(self, token: Address) -> int {
        let p = self.pool(token);
        tally::tally(
            self.positions,
            value_of(token, p.total_managed_assets as int, p.total_shares as int),
        )
    }

    /// The same call with the contract's address holding `balance` of `token`.
    pub open spec fn with_balance(self, token: Address, balance: i128) -> EnvView {
        self.after(Step::BalanceMoves { token, balance })
    }

    /// The same call in another ledger.
    pub open spec fn at(self, sequence: u32) -> EnvView {
        self.after(Step::LedgerCloses { sequence })
    }
}

proof fn lemma_value_bounded(
    m: Map<Holding, Position>,
    token: Address,
    assets: int,
    shares: int,
)
    requires
        m.dom().finite(),
        assets >= 0,
        shares > 0,
        forall|h: Holding| #[trigger] m.contains_key(h) ==> m[h].shares >= 0,
    ensures
        tally::tally(m, value_of(token, assets, shares)) * shares <= tally::tally(
            m,
            tally::shares_of(token),
        ) * assets,
    decreases m.dom().len(),
{
    let value = value_of(token, assets, shares);
    let held = tally::shares_of(token);
    if !m.dom().is_empty() {
        let c = m.dom().choose();
        assert(m.dom().contains(c));
        assert(m.contains_key(c));
        let rest = m.remove(c);
        assert forall|h: Holding| #[trigger] rest.contains_key(h) implies rest[h].shares >= 0 by {
            assert(m.contains_key(h));
        }
        lemma_value_bounded(rest, token, assets, shares);
        let x = value(c, m[c]);
        let s = held(c, m[c]);
        if c.token == token {
            math::lemma_pro_rata(s, assets, shares);
        }
        assert(x * shares <= s * assets);
        let y = tally::tally(rest, value);
        let r = tally::tally(rest, held);
        assert((x + y) * shares <= (s + r) * assets) by (nonlinear_arith)
            requires
                x * shares <= s * assets,
                y * shares <= r * assets,
        ;
    }
}

/// The pool owes no more than it manages: what all holdings of a token redeem to, taken together,
/// never exceeds the managed assets.
pub proof fn law_holdings_are_covered(v: EnvView, token: Address)
    requires
        v.sound(),
        v.pool(token).total_shares > 0,
    ensures
        v.value_held(token) <= v.pool(token).total_managed_assets,
{
    let p = v.pool(token);
    assert(v.pool_sound(token));
    assert forall|h: Holding| #[trigger] v.positions.contains_key(h) implies v.positions[h].shares
        >= 0 by {}
    lemma_value_bounded(
        v.positions,
        token,
        p.total_managed_assets as int,
        p.total_shares as int,
    );
    let x = v.value_held(token);
    let t = p.total_shares as int;
    let m = p.total_managed_assets as int;
    assert(x <= m) by (nonlinear_arith)
        requires
            x * t <= t * m,
            t > 0,
    ;
}

/// An accepted deposit gives its provider at least one share, just as many as were minted, and
/// takes exactly its amount from them.
pub proof fn law_deposit_is_credited(v: EnvView, h: Holding, amount: i128)
    requires
        !v.deposit_traps(h, amount as int),
        v.deposit_refusal(h, amount as int) is None,
    ensures
        ({
            let w = v.after_deposit(h, amount as int);
            let bought = v.minted(h.token, amount as int);
            &&& bought >= 1
            &&& w.position(h).shares == v.position(h).shares + bought
            &&& w.pool(h.token).total_shares == v.pool(h.token).total_shares + bought
            &&& w.position(h).deposit_ledger == Some(v.sequence)
            &&& w.actions == v.actions + seq![
                Action::RequireAuth(h.provider),
                Action::Transfer { token: h.token, from: h.provider, to: v.contract, amount },
            ] + (if v.position(h).shares == 0 {
                seq![
                    Action::Store {
                        key: DataKey::DepositorCount(h.token),
                        value: Value::Number(w.pool(h.token).depositor_count),
                    },
                ]
            } else {
                seq![]
            }) + seq![
                Action::Store {
                    key: DataKey::shares_of(h),
                    value: Value::Amount(w.position(h).shares),
                },
                Action::Store { key: DataKey::timestamp_of(h), value: Value::Number(v.sequence) },
                Action::Store {
                    key: DataKey::TotalShares(h.token),
                    value: Value::Amount(w.pool(h.token).total_shares),
                },
                Action::Store {
                    key: DataKey::TotalDeposits(h.token),
                    value: Value::Amount(w.pool(h.token).total_deposits),
                },
                Action::Store {
                    key: DataKey::TotalManagedAssets(h.token),
                    value: Value::Amount(w.pool(h.token).total_managed_assets),
                },
                Action::Publish(
                    Event::Deposit {
                        provider: h.provider,
                        token: h.token,
                        amount,
                        shares: bought as i128,
                    },
                ),
            ]
        }),
{
}

/// The first deposit into a pool without shares gets one share for each unit, and is no smaller
/// than the least opening amount: no pool opens with fewer shares than that.
pub proof fn law_first_deposit_is_one_to_one(v: EnvView, h: Holding, amount: i128)
    requires
        v.sound(),
        v.pool(h.token).total_shares == 0,
        !v.deposit_traps(h, amount as int),
        v.deposit_refusal(h, amount as int) is None,
    ensures
        amount >= MINIMUM_INITIAL_DEPOSIT,
        v.after_deposit(h, amount as int).pool(h.token).total_shares == amount,
        v.after_deposit(h, amount as int).pool(h.token).total_managed_assets == amount,
        v.after_deposit(h, amount as int).pool(h.token).total_deposits == amount,
        v.after_deposit(h, amount as int).pool(h.token).depositor_count == 1,
        v.after_deposit(h, amount as int).position(h).shares == amount,
{
    assert(v.pool_sound(h.token));
    accounts::lemma_holding_bounds(v, h);
    accounts::law_deposit_keeps_accounts_sound(v, h, amount);
    let w = v.after_deposit(h, amount as int);
    assert(w.pool_sound(h.token));
    lemma_no_shares_no_holders(v, h.token);
}

/// A pool without shares counts no depositors.
proof fn lemma_no_shares_no_holders(v: EnvView, token: Address)
    requires
        v.sound(),
        v.pool(token).total_shares == 0,
    ensures
        v.pool(token).depositor_count == 0,
{
    assert(v.pool_sound(token));
    assert forall|h: Holding| #[trigger] v.positions.contains_key(h) implies tally::holders_of(
        token,
    )(h, v.positions[h]) == 0 by {
        if h.token == token {
            accounts::lemma_holding_bounds(v, h);
        }
    }
    tally::lemma_tally_nothing(v.positions, tally::holders_of(token));
}

/// Nobody gains by depositing and leaving at once: the shares just minted redeem to no more than
/// was paid for them, and to all of it where the pool was empty.
pub proof fn law_deposit_and_redeem_gains_nothing(v: EnvView, h: Holding, amount: i128)
    requires
        v.sound(),
        !v.deposit_traps(h, amount as int),
        v.deposit_refusal(h, amount as int) is None,
    ensures
        v.after_deposit(h, amount as int).payout(h.token, v.minted(h.token, amount as int))
            <= amount,
        v.pool(h.token).total_shares == 0 ==> v.after_deposit(h, amount as int).payout(
            h.token,
            v.minted(h.token, amount as int),
        ) == amount,
{
    let w = v.after_deposit(h, amount as int);
    let p = v.pool(h.token);
    let a = amount as int;
    let m = p.total_managed_assets as int;
    let t = p.total_shares as int;
    let k = v.minted(h.token, a);
    assert(v.pool_sound(h.token));
    assert(w.pool(h.token).total_managed_assets == m + a);
    assert(w.pool(h.token).total_shares == t + k);
    if t == 0 {
        math::lemma_part_of_whole(k, m + a, t + k);
    } else {
        math::lemma_pro_rata(a, t, m);
        math::lemma_pro_rata(k, m + a, t + k);
        let q = w.payout(h.token, k);
        assert(q <= a) by (nonlinear_arith)
            requires
                q * (t + k) <= k * (m + a),
                k * m <= a * t,
                t + k > 0,
        ;
    }
}

/// A redemption pays the shares' part of the managed assets, rounded down, out of what is at
/// hand, and only once the accounting is written.
pub proof fn law_redemption_is_paid(v: EnvView, h: Holding, shares: i128)
    requires
        v.sound(),
        v.redemption_refusal(h, shares as int) is None,
    ensures
        ({
            let w = v.after_redemption(h, shares as int);
            let paid = v.payout(h.token, shares as int);
            &&& 0 < paid <= v.balances[h.token]
            &&& paid <= v.pool(h.token).total_managed_assets
            &&& w.position(h).shares == v.position(h).shares - shares
            &&& w.pool(h.token).total_shares == v.pool(h.token).total_shares - shares
            &&& w.pool(h.token).total_managed_assets == v.pool(h.token).total_managed_assets - paid
            &&& w.actions == v.actions + (if v.position(h).shares == shares {
                seq![
                    Action::Remove { key: DataKey::shares_of(h) },
                    Action::Remove { key: DataKey::timestamp_of(h) },
                    Action::Store {
                        key: DataKey::DepositorCount(h.token),
                        value: Value::Number(w.pool(h.token).depositor_count),
                    },
                ]
            } else {
                seq![
                    Action::Store {
                        key: DataKey::shares_of(h),
                        value: Value::Amount(w.position(h).shares),
                    },
                ]
            }) + seq![
                Action::Store {
                    key: DataKey::TotalShares(h.token),
                    value: Value::Amount(w.pool(h.token).total_shares),
                },
                Action::Store {
                    key: DataKey::TotalManagedAssets(h.token),
                    value: Value::Amount(w.pool(h.token).total_managed_assets),
                },
                Action::Store {
                    key: DataKey::TotalDeposits(h.token),
                    value: Value::Amount(w.pool(h.token).total_deposits),
                },
                Action::Transfer {
                    token: h.token,
                    from: v.contract,
                    to: h.provider,
                    amount: paid as i128,
                },
            ]
        }),
{
    let p = v.pool(h.token);
    accounts::lemma_holding_bounds(v, h);
    assert(v.pool_sound(h.token));
    math::lemma_part_of_whole(shares as int, p.total_managed_assets as int, p.total_shares as int);
}

/// Whoever redeems all shares outstanding gets all managed assets, yield and all, and leaves an
/// empty pool behind.
pub proof fn law_last_redemption_empties_the_pool(v: EnvView, h: Holding)
    requires
        v.sound(),
        v.position(h).shares == v.pool(h.token).total_shares,
        v.redemption_refusal(h, v.position(h).shares as int) is None,
    ensures
        ({
            let shares = v.position(h).shares as int;
            let w = v.after_redemption(h, shares);
            let q = w.pool(h.token);
            &&& v.payout(h.token, shares) == v.pool(h.token).total_managed_assets
            &&& q.total_shares == 0
            &&& q.total_managed_assets == 0
            &&& q.total_deposits == 0
            &&& q.depositor_count == 0
            &&& !w.positions.contains_key(h)
        }),
{
    let p = v.pool(h.token);
    let s = v.position(h).shares;
    accounts::lemma_holding_bounds(v, h);
    assert(v.pool_sound(h.token));
    math::lemma_part_of_whole(s as int, p.total_managed_assets as int, p.total_shares as int);
    math::lemma_part_of_whole(s as int, p.total_deposits as int, p.total_shares as int);
    accounts::law_redemption_keeps_accounts_sound(v, h, s);
    lemma_no_shares_no_holders(v.after_redemption(h, s as int), h.token);
}

/// The balance of the contract's address moves no price: whatever it is, be it drained by loans or
/// swollen by a direct transfer, a deposit buys the same shares under the same conditions, and a
/// holding redeems to the same assets. It decides only whether a redemption is paid now.
pub proof fn law_balance_moves_no_price(
    v: EnvView,
    token: Address,
    balance: i128,
    h: Holding,
    amount: int,
)
    ensures
        ({
            let w = v.with_balance(token, balance);
            &&& w.pool(h.token) == v.pool(h.token)
            &&& w.pool(h.token).share_price() == v.pool(h.token).share_price()
            &&& w.stake_value(h) == v.stake_value(h)
            &&& w.minted(h.token, amount) == v.minted(h.token, amount)
            &&& w.deposit_refusal(h, amount) == v.deposit_refusal(h, amount)
            &&& w.payout(h.token, amount) == v.payout(h.token, amount)
            &&& w.pricing_refusal(h, amount) == v.pricing_refusal(h, amount)
            &&& h.token != token || v.pricing_refusal(h, amount) is Some
                ==> w.redemption_refusal(h, amount) == v.redemption_refusal(h, amount)
        }),
{
}

/// A redemption that can be priced is refused for want of liquidity exactly when the balance does
/// not cover it, and for no other reason.
pub proof fn law_liquidity_only_defers(v: EnvView, h: Holding, shares: int)
    requires
        v.pricing_refusal(h, shares) is None,
    ensures
        v.balances[h.token] >= v.payout(h.token, shares) ==> v.redemption_refusal(h, shares)
            is None,
        v.balances[h.token] < v.payout(h.token, shares) ==> v.redemption_refusal(h, shares)
            == Some(PoolError::InsufficientLiquidity),
{
}

/// A pool over its cap takes no deposits, whatever their size, until redemptions have brought its
/// principal under the cap; a deposit that stays within the cap is not refused for it.
pub proof fn law_over_cap_blocks_deposits(v: EnvView, h: Holding, amount: i128)
    requires
        v.sound(),
        !v.config.paused,
        amount > 0,
    ensures
        v.pool(h.token).over_cap() ==> v.deposit_refusal(h, amount as int) == Some(
            PoolError::PoolSizeExceeded,
        ),
        v.deposit_refusal(h, amount as int) == Some(PoolError::PoolSizeExceeded) <==> 0 < v.pool(
            h.token,
        ).max_pool_size < v.pool(h.token).total_deposits + amount,
{
    assert(v.pool_sound(h.token));
}

/// Deposits never take a pool over its cap.
pub proof fn law_deposits_stay_within_the_cap(v: EnvView, h: Holding, amount: i128)
    requires
        !v.deposit_traps(h, amount as int),
        v.deposit_refusal(h, amount as int) is None,
        v.pool(h.token).max_pool_size >= 0,
    ensures
        !v.after_deposit(h, amount as int).pool(h.token).over_cap(),
{
}

/// While the contract is paused, deposits, withdrawals and reports of yield are refused. While it
/// is not, emergency withdrawals are. So at any time there is one way out and not the other.
pub proof fn law_pause_switches_the_way_out(
    v: EnvView,
    h: Holding,
    token: Address,
    amount: int,
    shares: int,
)
    ensures
        v.config.paused ==> v.deposit_refusal(h, amount) == Some(PoolError::ContractPaused),
        v.config.paused ==> v.withdrawal_refusal(h, shares) == Some(PoolError::ContractPaused),
        v.config.paused ==> v.yield_refusal(token, amount) == Some(PoolError::ContractPaused),
        !v.config.paused <==> v.emergency_refusal(h, shares) == Some(PoolError::NotPaused),
        v.config.paused ==> v.emergency_refusal(h, shares) == v.redemption_refusal(h, shares),
{
}

/// The cooldown never keeps anybody in a paused pool: an emergency withdrawal goes the same way
/// whatever the cooldown is and whenever the deposit was made.
pub proof fn law_emergency_ignores_the_cooldown(
    v: EnvView,
    h: Holding,
    shares: int,
    sequence: u32,
    cooldown: u32,
)
    ensures
        v.at(sequence).with_config(
            Config { withdrawal_cooldown: cooldown, ..v.config },
        ).emergency_refusal(h, shares) == v.emergency_refusal(h, shares),
{
}

/// An emergency withdrawal is worth as much as an ordinary one: in a contract that is alike but for
/// the pause, both are refused for the same reasons, pay the same assets and leave the same pools
/// and holdings behind.
pub proof fn law_emergency_pays_the_same(v: EnvView, h: Holding, shares: int)
    requires
        !v.config.paused,
        !v.cooling_down(h),
    ensures
        ({
            let paused = v.with_config(Config { paused: true, ..v.config });
            &&& paused.emergency_refusal(h, shares) == v.withdrawal_refusal(h, shares)
            &&& paused.payout(h.token, shares) == v.payout(h.token, shares)
            &&& paused.after_emergency(h, shares).pools == v.after_withdrawal(h, shares).pools
            &&& paused.after_emergency(h, shares).positions == v.after_withdrawal(
                h,
                shares,
            ).positions
        }),
{
}

/// After a deposit, and until another, a withdrawal of any part of the holding is refused as too
/// early in exactly those ledgers that lie before the end of the cooldown.
pub proof fn law_cooldown_runs_from_the_latest_deposit(
    v: EnvView,
    h: Holding,
    amount: i128,
    sequence: u32,
    shares: int,
)
    requires
        !v.deposit_traps(h, amount as int),
        v.deposit_refusal(h, amount as int) is None,
    ensures
        v.after_deposit(h, amount as int).at(sequence).withdrawal_refusal(h, shares) == Some(
            PoolError::WithdrawalCooldownActive,
        ) <==> v.config.withdrawal_cooldown > 0 && sequence < v.sequence
            + v.config.withdrawal_cooldown && sequence < u32::MAX,
{
}

/// Yield raises what any number of shares redeem to, in proportion; it moves neither the shares,
/// nor the principal, nor what counts against the cap, nor any holding.
pub proof fn law_yield_raises_all_alike(v: EnvView, token: Address, amount: i128, shares: int)
    requires
        v.sound(),
        !v.yield_traps(token, amount as int),
        v.yield_refusal(token, amount as int) is None,
        shares >= 0,
    ensures
        ({
            let w = v.after_yield(token, amount as int);
            let p = v.pool(token);
            &&& w.pool(token) == (Pool {
                total_managed_assets: (p.total_managed_assets + amount) as i128,
                ..p
            })
            &&& w.pool(token).total_managed_assets == p.total_managed_assets + amount
            &&& w.positions == v.positions
            &&& w.payout(token, shares) == math::assets_for(
                shares,
                p.total_managed_assets + amount,
                p.total_shares as int,
            )
            &&& w.payout(token, shares) >= v.payout(token, shares)
        }),
{
    let p = v.pool(token);
    assert(v.pool_sound(token));
    let m = p.total_managed_assets as int;
    let t = p.total_shares as int;
    assert((m + amount) * t >= m * t) by (nonlinear_arith)
        requires
            amount > 0,
            t > 0,
    ;
    math::lemma_better_rate(shares, m, t, m + amount, t);
}

/// Two parts of a holding, redeemed at one price, bring no more than both at once.
pub proof fn law_splitting_gains_nothing(v: EnvView, token: Address, a: int, b: int)
    requires
        v.sound(),
        v.pool(token).total_shares > 0,
        a >= 0,
        b >= 0,
    ensures
        v.payout(token, a) + v.payout(token, b) <= v.payout(token, a + b),
{
    let p = v.pool(token);
    assert(v.pool_sound(token));
    let m = p.total_managed_assets as int;
    let t = p.total_shares as int;
    math::lemma_pro_rata(a, m, t);
    math::lemma_pro_rata(b, m, t);
    let x = v.payout(token, a);
    let y = v.payout(token, b);
    assert((x + y) * t <= (a + b) * m && (a + b) * m >= 0) by (nonlinear_arith)
        requires
            x * t <= a * m,
            y * t <= b * m,
            a >= 0,
            b >= 0,
            m >= 0,
    ;
    math::lemma_quotient_is_greatest(x + y, (a + b) * m, t);
}

/// The contract changes hands in two steps: the admin names the next one, who stays a candidate
/// until they accept; accepting uses the proposal up.
pub proof fn law_handover_takes_two_steps(v: EnvView, next: Address)
    requires
        v.config.admin is Some,
    ensures
        ({
            let proposed = v.after_propose_admin(next);
            let accepted = proposed.after_accept_admin();
            &&& proposed.config.admin == v.config.admin
            &&& proposed.config.proposed_admin == Some(next)
            &&& proposed.authority(Step::AcceptAdmin) == Some(next)
            &&& accepted.config.admin == Some(next)
            &&& accepted.config.proposed_admin is None
            &&& accepted.refusal(Step::AcceptAdmin) == Some(PoolError::NoProposedAdmin)
        }),
{
}

/// Handing the contract over at once drops a proposal that stands.
pub proof fn law_direct_handover_drops_the_proposal(v: EnvView, next: Address)
    requires
        v.config.admin is Some,
    ensures
        v.after_set_admin(next).config.admin == Some(next),
        v.after_set_admin(next).refusal(Step::AcceptAdmin) == Some(PoolError::NoProposedAdmin),
{
}

/// Utilisation is nought to ten thousand while the balance is not negative, and is not nought only
/// where loans have brought the balance under the principal.
pub proof fn law_utilization_is_a_fraction(p: Pool, balance: i128)
    requires
        balance >= 0,
    ensures
        0 <= p.utilization(balance as int) <= 10_000,
        p.utilization(balance as int) > 0 ==> balance < p.total_deposits,
{
    let b = p.borrowed(balance as int);
    let d = p.total_deposits as int;
    if b != 0 {
        let n = b * 10_000;
        assert(0 <= n / d <= 10_000) by (nonlinear_arith)
            requires
                0 < b <= d,
                n == b * 10_000,
        ;
    }
}

} // verus!
