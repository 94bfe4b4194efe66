//! What holds of the accounts of every pool, whatever calls were made.
use vstd::prelude::*;

use crate::address::{Address, Holding};
use crate::env::{Action, EnvView, Pool};
use crate::math;
use crate::tally;

verus! {

impl EnvView {
    /// Shares of `token` in all holdings together.
    pub open spec fn shares_held(self, token: Address) -> int {
        tally::tally(self.positions, tally::shares_of(token))
    }

    /// Number of providers that hold shares of `token`.
    pub open spec fn holders(self, token: Address) -> int {
        tally::tally(self.positions, tally::holders_of(token))
    }

    /// Whether the accounts of `token` are in order:
    /// the shares outstanding are the shares held, and the depositors counted are the holders;
    /// assets back the shares exactly while there are any;
    /// and principal is not negative and never exceeds the managed assets.
    pub open spec fn pool_sound(self, token: Address) -> bool {
        let p = self.pool(token);
        &&& p.total_shares == self.shares_held(token)
        &&& p.depositor_count == self.holders(token)
        &&& p.total_shares >= 0
        &&& 0 <= p.total_deposits <= p.total_managed_assets
        &&& p.total_shares == 0 <==> p.total_managed_assets == 0
        &&& p.max_pool_size >= 0
    }

    /// Whether the accounts of every token are in order, and every holding holds shares and knows
    /// the ledger of its latest deposit.
    pub open spec fn sound(self) -> bool {
        &&& self.positions.dom().finite()
        &&& forall|h: Holding| #[trigger]
            self.positions.contains_key(h) ==> self.positions[h].shares > 0
                && self.positions[h].deposit_ledger is Some
        &&& forall|token: Address| #[trigger] self.pool_sound(token)
    }

    /// Whether two calls see the same entries.
    pub open spec fn same_entries(self, other: EnvView) -> bool {
        &&& self.config == other.config
        &&& self.pools == other.pools
        &&& self.positions == other.positions
    }
}

/// A contract with nothing in its storage has its accounts in order.
pub proof fn law_fresh_accounts_are_sound(contract: Address, sequence: u32)
    ensures
        EnvView::fresh(contract, sequence).sound(),
{
    let v = EnvView::fresh(contract, sequence);
    assert forall|token: Address| #[trigger] v.pool_sound(token) by {
        assert(v.positions.dom().is_empty());
    }
}

/// Accounts depend on nothing but the entries.
pub proof fn lemma_same_entries_sound(v: EnvView, w: EnvView)
    requires
        v.sound(),
        v.positions == w.positions,
        forall|token: Address|
            #![trigger w.pool(token)]
            w.pool(token) == (Pool {
                max_pool_size: w.pool(token).max_pool_size,
                loan_manager: w.pool(token).loan_manager,
                ..v.pool(token)
            }) && w.pool(token).max_pool_size >= 0,
    ensures
        w.sound(),
{
    assert forall|token: Address| #[trigger] w.pool_sound(token) by {
        assert(v.pool_sound(token));
        assert(w.pool(token).total_shares == v.pool(token).total_shares);
    }
}

/// A holding of another token counts neither among the shares nor among the holders.
proof fn lemma_other_token(v: EnvView, w: EnvView, h: Holding, token: Address)
    requires
        v.positions.dom().finite(),
        w.positions.remove(h) == v.positions.remove(h),
        w.positions.dom().finite(),
        token != h.token,
    ensures
        w.shares_held(token) == v.shares_held(token),
        w.holders(token) == v.holders(token),
{
    tally::lemma_tally_absent(v.positions, tally::shares_of(token), h);
    tally::lemma_tally_absent(w.positions, tally::shares_of(token), h);
    tally::lemma_tally_absent(v.positions, tally::holders_of(token), h);
    tally::lemma_tally_absent(w.positions, tally::holders_of(token), h);
}

/// How the sums for a token change with one holding.
proof fn lemma_this_token(v: EnvView, w: EnvView, h: Holding)
    requires
        v.positions.dom().finite(),
        w.positions.remove(h) == v.positions.remove(h),
        w.positions.dom().finite(),
    ensures
        w.shares_held(h.token) - w.position(h).shares == v.shares_held(h.token) - v.position(
            h,
        ).shares,
        w.holders(h.token) - (if w.positions.contains_key(h) {
            1int
        } else {
            0
        }) == v.holders(h.token) - (if v.positions.contains_key(h) {
            1int
        } else {
            0
        }),
{
    tally::lemma_tally_absent(v.positions, tally::shares_of(h.token), h);
    tally::lemma_tally_absent(w.positions, tally::shares_of(h.token), h);
    tally::lemma_tally_absent(v.positions, tally::holders_of(h.token), h);
    tally::lemma_tally_absent(w.positions, tally::holders_of(h.token), h);
}

/// A holding has no more shares than are outstanding, and a pool with a holder counts one.
pub proof fn lemma_holding_bounds(v: EnvView, h: Holding)
    requires
        v.sound(),
    ensures
        0 <= v.position(h).shares <= v.pool(h.token).total_shares,
        v.positions.contains_key(h) ==> v.pool(h.token).depositor_count >= 1,
        v.positions.contains_key(h) <==> v.position(h).shares > 0,
{
    assert(v.pool_sound(h.token));
    let s = tally::shares_of(h.token);
    let c = tally::holders_of(h.token);
    assert forall|k: Holding| #[trigger] v.positions.contains_key(k) implies s(k, v.positions[k])
        >= 0 && c(k, v.positions[k]) >= 0 by {}
    tally::lemma_tally_bounds(v.positions, s);
    tally::lemma_tally_bounds(v.positions, c);
    if v.positions.contains_key(h) {
        assert(s(h, v.positions[h]) <= tally::tally(v.positions, s));
        assert(c(h, v.positions[h]) <= tally::tally(v.positions, c));
    }
}

/// A deposit keeps the accounts in order.
pub proof fn law_deposit_keeps_accounts_sound(v: EnvView, h: Holding, amount: i128)
    requires
        v.sound(),
        !v.deposit_traps(h, amount as int),
    ensures
        v.after_deposit(h, amount as int).sound(),
{
    let w = v.after_deposit(h, amount as int);
    if v.deposit_refusal(h, amount as int) is Some {
        lemma_entries_alone_matter(v, w);
    } else {
        let p = v.pool(h.token);
        let q = w.pool(h.token);
        lemma_holding_bounds(v, h);
        assert(v.pool_sound(h.token));
        assert(w.positions.remove(h) =~= v.positions.remove(h));
        lemma_this_token(v, w, h);
        assert(w.pool_sound(h.token));
        assert forall|token: Address| #[trigger] w.pool_sound(token) by {
            if token != h.token {
                assert(v.pool_sound(token));
                lemma_other_token(v, w, h, token);
                assert(w.pool(token) == v.pool(token));
            }
        }
        assert forall|k: Holding| #[trigger]
            w.positions.contains_key(k) implies w.positions[k].shares > 0
            && w.positions[k].deposit_ledger is Some by {
            if k != h {
                assert(v.positions.contains_key(k));
            }
        }
    }
}

/// A redemption keeps the accounts in order.
pub proof fn law_redemption_keeps_accounts_sound(v: EnvView, h: Holding, shares: i128)
    requires
        v.sound(),
    ensures
        v.after_redemption(h, shares as int).sound(),
{
    let w = v.after_redemption(h, shares as int);
    if v.redemption_refusal(h, shares as int) is Some {
        lemma_entries_alone_matter(v, w);
    } else {
        let p = v.pool(h.token);
        lemma_holding_bounds(v, h);
        assert(v.pool_sound(h.token));
        math::lemma_part_of_whole(
            shares as int,
            p.total_managed_assets as int,
            p.total_shares as int,
        );
        math::lemma_part_of_whole(shares as int, p.total_deposits as int, p.total_shares as int);
        math::lemma_two_totals(
            shares as int,
            p.total_deposits as int,
            p.total_managed_assets as int,
            p.total_shares as int,
        );
        assert(w.positions.remove(h) =~= v.positions.remove(h));
        lemma_this_token(v, w, h);
        assert(w.pool_sound(h.token));
        assert forall|token: Address| #[trigger] w.pool_sound(token) by {
            if token != h.token {
                assert(v.pool_sound(token));
                lemma_other_token(v, w, h, token);
                assert(w.pool(token) == v.pool(token));
            }
        }
        assert forall|k: Holding| #[trigger]
            w.positions.contains_key(k) implies w.positions[k].shares > 0
            && w.positions[k].deposit_ledger is Some by {
            assert(v.positions.contains_key(k));
        }
    }
}

/// The accounts are in order or not by the entries alone.
pub proof fn lemma_entries_alone_matter(v: EnvView, w: EnvView)
    requires
        v.sound(),
        v.same_entries(w),
    ensures
        w.sound(),
{
    assert forall|token: Address| #[trigger] w.pool_sound(token) by {
        assert(v.pool_sound(token));
    }
}

/// A withdrawal keeps the accounts in order, and so does an emergency withdrawal.
pub proof fn law_withdrawals_keep_accounts_sound(v: EnvView, h: Holding, shares: i128)
    requires
        v.sound(),
    ensures
        v.after_withdrawal(h, shares as int).sound(),
        v.after_emergency(h, shares as int).sound(),
{
    let asked = v.asked(Action::RequireAuth(h.provider)).bumped();
    let checked = asked.cooldown_checked(h);
    lemma_entries_alone_matter(v, asked);
    lemma_entries_alone_matter(v, checked);
    law_redemption_keeps_accounts_sound(asked, h, shares);
    law_redemption_keeps_accounts_sound(checked, h, shares);
    if !v.config.paused && !v.cooling_down(h) {
        lemma_entries_alone_matter(
            checked.after_redemption(h, shares as int),
            v.after_withdrawal(h, shares as int),
        );
    }
    if v.config.paused {
        lemma_entries_alone_matter(
            asked.after_redemption(h, shares as int),
            v.after_emergency(h, shares as int),
        );
    }
}

/// A report of yield keeps the accounts in order.
pub proof fn law_yield_keeps_accounts_sound(v: EnvView, token: Address, amount: i128)
    requires
        v.sound(),
        !v.yield_traps(token, amount as int),
    ensures
        v.after_yield(token, amount as int).sound(),
{
    let w = v.after_yield(token, amount as int);
    assert forall|t: Address| #[trigger] w.pool_sound(t) by {
        assert(v.pool_sound(t));
        assert(v.pool_sound(token));
    }
}

/// No redemption aborts while the accounts are in order: a holding is never trapped.
pub proof fn law_redemptions_never_abort(v: EnvView, h: Holding, shares: i128)
    requires
        v.sound(),
    ensures
        !v.redemption_traps(h, shares as int),
        !v.withdrawal_traps(h, shares as int),
        !v.emergency_traps(h, shares as int),
{
    let p = v.pool(h.token);
    if v.redemption_refusal(h, shares as int) is None {
        lemma_holding_bounds(v, h);
        assert(v.pool_sound(h.token));
        assert(0 <= shares * p.total_deposits <= shares * p.total_managed_assets)
            by (nonlinear_arith)
            requires
                shares > 0,
                0 <= p.total_deposits <= p.total_managed_assets,
        ;
    }
}

/// A deposit aborts only for a number that cannot be held: while the accounts are in order, no
/// share is ever without assets to price it by.
pub proof fn law_deposits_abort_only_for_numbers(v: EnvView, h: Holding, amount: i128)
    requires
        v.sound(),
        v.deposit_traps(h, amount as int),
    ensures
        ({
            let p = v.pool(h.token);
            ||| p.total_managed_assets + amount > i128::MAX
            ||| p.total_deposits + amount > i128::MAX
            ||| amount * p.total_shares > i128::MAX
            ||| p.total_shares + v.minted(h.token, amount as int) > i128::MAX
            ||| p.depositor_count == u32::MAX
        }),
{
    let p = v.pool(h.token);
    assert(v.pool_sound(h.token));
    lemma_holding_bounds(v, h);
    assert(amount * p.total_shares >= 0) by (nonlinear_arith)
        requires
            amount > 0,
            p.total_shares >= 0,
    ;
}

} // verus!
