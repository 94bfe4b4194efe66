//! What holds of every call, and of every run of calls.
use vstd::prelude::*;

use crate::accounts;
use crate::address::{Address, Holding};
use crate::env::{Action, EnvView, Pool, TtlExtension};
use crate::error::PoolError;
use crate::math;
use crate::rules::{MAX_WITHDRAWAL_COOLDOWN_LEDGERS, SHARE_PRICE_SCALE};

verus! {

/// One thing that can happen: a call of the contract, or a change in the world around it.
pub enum Step {
    Initialize { admin: Address },
    Upgrade { new_wasm_hash: [u8; 32] },
    SetMaxPoolSize { token: Address, max: i128 },
    SetWithdrawalCooldown { ledgers: u32 },
    SetLoanManager { token: Address, loan_manager: Address },
    ProposeAdmin { new_admin: Address },
    AcceptAdmin,
    SetAdmin { new_admin: Address },
    Pause,
    Unpause,
    Deposit { holding: Holding, amount: i128 },
    Withdraw { holding: Holding, shares: i128 },
    EmergencyWithdraw { holding: Holding, shares: i128 },
    RecordYield { token: Address, amount: i128 },
    /// Time passes.
    LedgerCloses { sequence: u32 },
    /// The contract's address gets or loses tokens: a loan, a repayment, a direct transfer.
    BalanceMoves { token: Address, balance: i128 },
}

impl EnvView {
    /// Whether the call aborts; an aborted call leaves nothing behind.
    pub open spec fn aborts(self, step: Step) -> bool {
        match step {
            Step::Initialize { .. } => false,
            Step::AcceptAdmin => false,
            Step::Deposit { holding, amount } => self.deposit_traps(holding, amount as int),
            Step::Withdraw { holding, shares } => self.withdrawal_traps(holding, shares as int),
            Step::EmergencyWithdraw { holding, shares } => self.emergency_traps(
                holding,
                shares as int,
            ),
            Step::RecordYield { token, amount } => self.yield_traps(token, amount as int),
            Step::LedgerCloses { .. } => false,
            Step::BalanceMoves { .. } => false,
            _ => self.config.admin is None,
        }
    }

    /// Why the call is refused, if it is.
    pub open spec fn refusal(self, step: Step) -> Option<PoolError> {
        match step {
            Step::Initialize { .. } => if self.config.admin is Some {
                Some(PoolError::AlreadyInitialized)
            } else {
                None
            },
            Step::SetMaxPoolSize { max, .. } => if max < 0 {
                Some(PoolError::InvalidMaxPoolSize)
            } else {
                None
            },
            Step::SetWithdrawalCooldown { ledgers } => if ledgers
                > MAX_WITHDRAWAL_COOLDOWN_LEDGERS {
                Some(PoolError::CooldownTooLong)
            } else {
                None
            },
            Step::AcceptAdmin => if self.config.proposed_admin is None {
                Some(PoolError::NoProposedAdmin)
            } else {
                None
            },
            Step::Deposit { holding, amount } => self.deposit_refusal(holding, amount as int),
            Step::Withdraw { holding, shares } => self.withdrawal_refusal(holding, shares as int),
            Step::EmergencyWithdraw { holding, shares } => self.emergency_refusal(
                holding,
                shares as int,
            ),
            Step::RecordYield { token, amount } => self.yield_refusal(token, amount as int),
            _ => None,
        }
    }

    /// What the step leaves behind.
    pub open spec fn after(self, step: Step) -> EnvView {
        if self.aborts(step) {
            self
        } else {
            match step {
                Step::Initialize { admin } => self.after_initialize(admin),
                Step::Upgrade { new_wasm_hash } => self.after_upgrade(new_wasm_hash),
                Step::SetMaxPoolSize { token, max } => self.after_set_max_pool_size(token, max),
                Step::SetWithdrawalCooldown { ledgers } => self.after_set_withdrawal_cooldown(
                    ledgers,
                ),
                Step::SetLoanManager { token, loan_manager } => self.after_set_loan_manager(
                    token,
                    loan_manager,
                ),
                Step::ProposeAdmin { new_admin } => self.after_propose_admin(new_admin),
                Step::AcceptAdmin => self.after_accept_admin(),
                Step::SetAdmin { new_admin } => self.after_set_admin(new_admin),
                Step::Pause => self.after_set_paused(true),
                Step::Unpause => self.after_set_paused(false),
                Step::Deposit { holding, amount } => self.after_deposit(holding, amount as int),
                Step::Withdraw { holding, shares } => self.after_withdrawal(
                    holding,
                    shares as int,
                ),
                Step::EmergencyWithdraw { holding, shares } => self.after_emergency(
                    holding,
                    shares as int,
                ),
                Step::RecordYield { token, amount } => self.after_yield(token, amount as int),
                Step::LedgerCloses { sequence } => EnvView { sequence, ..self },
                Step::BalanceMoves { token, balance } => EnvView {
                    balances: self.balances.insert(token, balance),
                    ..self
                },
            }
        }
    }

    /// What a run of steps leaves behind.
    pub open spec fn after_all(self, steps: Seq<Step>) -> EnvView
        decreases steps.len(),
    {
        if steps.len() == 0 {
            self
        } else {
            self.after_all(steps.drop_last()).after(steps.last())
        }
    }

    /// Who must authorise the step, if anybody must.
    pub open spec fn authority(self, step: Step) -> Option<Address> {
        match step {
            Step::Initialize { .. } => None,
            Step::AcceptAdmin => self.config.proposed_admin,
            Step::Deposit { holding, .. } => Some(holding.provider),
            Step::Withdraw { holding, .. } => Some(holding.provider),
            Step::EmergencyWithdraw { holding, .. } => Some(holding.provider),
            Step::RecordYield { token, .. } => self.yield_reporter(token),
            Step::LedgerCloses { .. } => None,
            Step::BalanceMoves { .. } => None,
            _ => self.config.admin,
        }
    }
}

impl Step {
    /// The token whose pool the step is about, if it is about one.
    pub open spec fn token(self) -> Option<Address> {
        match self {
            Step::SetMaxPoolSize { token, .. } => Some(token),
            Step::SetLoanManager { token, .. } => Some(token),
            Step::Deposit { holding, .. } => Some(holding.token),
            Step::Withdraw { holding, .. } => Some(holding.token),
            Step::EmergencyWithdraw { holding, .. } => Some(holding.token),
            Step::RecordYield { token, .. } => Some(token),
            _ => None,
        }
    }

    /// The holding that the step is about, if it is about one.
    pub open spec fn holding(self) -> Option<Holding> {
        match self {
            Step::Deposit { holding, .. } => Some(holding),
            Step::Withdraw { holding, .. } => Some(holding),
            Step::EmergencyWithdraw { holding, .. } => Some(holding),
            _ => None,
        }
    }

    /// Whether the step can move totals: whether it deposits, redeems or reports yield.
    pub open spec fn moves_assets(self) -> bool {
        self.holding() is Some || self is RecordYield
    }
}

impl EnvView {
    /// What the step moves into the managed assets of `token`: what is deposited or reported as
    /// yield, less what is paid out.
    pub open spec fn flow(self, step: Step, token: Address) -> int {
        if self.aborts(step) || self.refusal(step) is Some || step.token() != Some(token) {
            0
        } else {
            match step {
                Step::Deposit { amount, .. } => amount as int,
                Step::RecordYield { amount, .. } => amount as int,
                Step::Withdraw { shares, .. } => -self.payout(token, shares as int),
                Step::EmergencyWithdraw { shares, .. } => -self.payout(token, shares as int),
                _ => 0,
            }
        }
    }

    /// What a run of steps moves into the managed assets of `token`.
    pub open spec fn net_flow(self, steps: Seq<Step>, token: Address) -> int
        decreases steps.len(),
    {
        if steps.len() == 0 {
            0
        } else {
            self.net_flow(steps.drop_last(), token) + self.after_all(steps.drop_last()).flow(
                steps.last(),
                token,
            )
        }
    }

    /// Principal that a run of steps deposits into the pool of `token`.
    pub open spec fn principal_in(self, steps: Seq<Step>, token: Address) -> int
        decreases steps.len(),
    {
        if steps.len() == 0 {
            0
        } else {
            self.principal_in(steps.drop_last(), token) + if steps.last() is Deposit {
                self.after_all(steps.drop_last()).flow(steps.last(), token)
            } else {
                0
            }
        }
    }
}

/// A refused call changes no entry. Besides the authorisation that it asked for, it asks the
/// ledger for nothing: no transfer, no event, no write.
pub proof fn law_refused_calls_change_nothing(v: EnvView, step: Step)
    requires
        v.refusal(step) is Some,
    ensures
        v.same_entries(v.after(step)),
        v.after(step).actions == v.actions || (v.authority(step) is Some && v.after(step).actions
            == v.actions.push(Action::RequireAuth(v.authority(step)->0))),
{
}

/// A call that changes an entry has first asked for the authorisation of the one whose call it is
/// to make: the provider for their holding, the yield reporter for yield, the proposed admin for
/// accepting, the admin for the rest. Only setting the contract up needs nobody's.
pub proof fn law_changes_are_authorised(v: EnvView, step: Step)
    requires
        !v.same_entries(v.after(step)),
        !(step is Initialize),
    ensures
        v.authority(step) is Some,
        v.after(step).actions.len() > v.actions.len(),
        v.after(step).actions[v.actions.len() as int] == Action::RequireAuth(v.authority(step)->0),
{
}

/// A call never takes back what was asked for before it.
pub proof fn law_requests_stand(v: EnvView, step: Step)
    ensures
        v.actions.is_prefix_of(v.after(step).actions),
{
}

/// A call that changes an entry keeps the contract's entries alive.
pub proof fn law_changes_keep_the_contract_alive(v: EnvView, step: Step)
    requires
        !v.same_entries(v.after(step)),
    ensures
        v.after(step).instance_ttl == Some(TtlExtension::instance()),
{
}

/// Every step keeps the accounts of every pool in order.
pub proof fn law_every_step_keeps_accounts_sound(v: EnvView, step: Step)
    requires
        v.sound(),
    ensures
        v.after(step).sound(),
{
    let w = v.after(step);
    match step {
        Step::Deposit { holding, amount } => {
            if !v.aborts(step) {
                accounts::law_deposit_keeps_accounts_sound(v, holding, amount);
            }
        },
        Step::Withdraw { holding, shares } => {
            accounts::law_withdrawals_keep_accounts_sound(v, holding, shares);
        },
        Step::EmergencyWithdraw { holding, shares } => {
            accounts::law_withdrawals_keep_accounts_sound(v, holding, shares);
        },
        Step::RecordYield { token, amount } => {
            if !v.aborts(step) {
                accounts::law_yield_keeps_accounts_sound(v, token, amount);
            }
        },
        _ => {
            assert forall|t: Address|
                #![trigger w.pool(t)]
                w.pool(t) == (Pool {
                    max_pool_size: w.pool(t).max_pool_size,
                    loan_manager: w.pool(t).loan_manager,
                    ..v.pool(t)
                }) && w.pool(t).max_pool_size >= 0 by {
                assert(v.pool_sound(t));
            }
            accounts::lemma_same_entries_sound(v, w);
        },
    }
}

/// From a contract with nothing in its storage, no run of steps gets the accounts out of order.
pub proof fn law_every_run_keeps_accounts_sound(
    contract: Address,
    sequence: u32,
    steps: Seq<Step>,
)
    ensures
        EnvView::fresh(contract, sequence).after_all(steps).sound(),
    decreases steps.len(),
{
    let v = EnvView::fresh(contract, sequence);
    if steps.len() == 0 {
        accounts::law_fresh_accounts_are_sound(contract, sequence);
    } else {
        law_every_run_keeps_accounts_sound(contract, sequence, steps.drop_last());
        law_every_step_keeps_accounts_sound(v.after_all(steps.drop_last()), steps.last());
    }
}

/// Governing the contract, the passing of time and the moving of tokens touch no holding and no
/// total.
pub proof fn law_only_asset_calls_touch_accounts(v: EnvView, step: Step, token: Address)
    requires
        !step.moves_assets(),
    ensures
        v.after(step).positions == v.positions,
        v.after(step).pool(token) == (Pool {
            max_pool_size: v.after(step).pool(token).max_pool_size,
            loan_manager: v.after(step).pool(token).loan_manager,
            ..v.pool(token)
        }),
{
}

/// A call about one token leaves the pools and holdings of all others as they were.
pub proof fn law_tokens_are_separate(v: EnvView, step: Step, h: Holding)
    requires
        step.token() != Some(h.token),
    ensures
        v.after(step).pool(h.token) == v.pool(h.token),
        v.after(step).position(h) == v.position(h),
{
}

/// A call about one holding leaves all others as they were.
pub proof fn law_holdings_are_separate(v: EnvView, step: Step, h: Holding)
    requires
        step.holding() != Some(h),
    ensures
        v.after(step).position(h) == v.position(h),
{
}

/// The exchange rate never falls: while shares stay outstanding, no step makes the assets that
/// back a share fewer. Depositors are not diluted, and those who leave take no more than their
/// part.
pub proof fn law_exchange_rate_never_falls(v: EnvView, step: Step, token: Address)
    requires
        v.sound(),
        v.pool(token).total_shares > 0,
        v.after(step).pool(token).total_shares > 0,
    ensures
        v.after(step).pool(token).total_managed_assets * v.pool(token).total_shares >= v.pool(
            token,
        ).total_managed_assets * v.after(step).pool(token).total_shares,
{
    let p = v.pool(token);
    let q = v.after(step).pool(token);
    let m = p.total_managed_assets as int;
    let t = p.total_shares as int;
    assert(v.pool_sound(token));
    if step.moves_assets() && step.token() == Some(token) && !v.aborts(step) && v.refusal(step)
        is None {
        match step {
            Step::Deposit { holding, amount } => {
                let a = amount as int;
                let k = v.minted(token, a);
                math::lemma_pro_rata(a, t, m);
                assert(q.total_managed_assets == m + a && q.total_shares == t + k);
                assert((m + a) * t >= m * (t + k)) by (nonlinear_arith)
                    requires
                        k * m <= a * t,
                ;
            },
            Step::Withdraw { holding, shares } => {
                lemma_rate_after_redemption(v, holding, shares);
            },
            Step::EmergencyWithdraw { holding, shares } => {
                lemma_rate_after_redemption(v, holding, shares);
            },
            Step::RecordYield { amount, .. } => {
                assert(q.total_managed_assets == m + amount && q.total_shares == t);
                assert((m + amount) * t >= m * t) by (nonlinear_arith)
                    requires
                        amount > 0,
                        t > 0,
                ;
            },
            _ => {},
        }
    } else {
        assert(q.total_managed_assets == p.total_managed_assets);
        assert(q.total_shares == p.total_shares);
    }
}

proof fn lemma_rate_after_redemption(v: EnvView, h: Holding, shares: i128)
    requires
        v.sound(),
        v.redemption_refusal(h, shares as int) is None,
    ensures
        ({
            let p = v.pool(h.token);
            let q = p.after_redemption(v.position(h).shares as int, shares as int);
            q.total_managed_assets * p.total_shares >= p.total_managed_assets * q.total_shares
        }),
{
    let p = v.pool(h.token);
    let m = p.total_managed_assets as int;
    let t = p.total_shares as int;
    let s = shares as int;
    accounts::lemma_holding_bounds(v, h);
    assert(v.pool_sound(h.token));
    math::lemma_pro_rata(s, m, t);
    math::lemma_part_of_whole(s, m, t);
    let f = v.payout(h.token, s);
    assert((m - f) * t >= m * (t - s)) by (nonlinear_arith)
        requires
            f * t <= s * m,
    ;
}

/// The price of a share never falls while shares stay outstanding.
pub proof fn law_share_price_never_falls(v: EnvView, step: Step, token: Address)
    requires
        v.sound(),
        v.pool(token).total_shares > 0,
        v.after(step).pool(token).total_shares > 0,
    ensures
        v.after(step).pool(token).share_price() >= v.pool(token).share_price(),
{
    law_exchange_rate_never_falls(v, step, token);
    law_every_step_keeps_accounts_sound(v, step);
    assert(v.pool_sound(token));
    assert(v.after(step).pool_sound(token));
    let p = v.pool(token);
    let q = v.after(step).pool(token);
    math::lemma_better_rate(
        SHARE_PRICE_SCALE as int,
        p.total_managed_assets as int,
        p.total_shares as int,
        q.total_managed_assets as int,
        q.total_shares as int,
    );
}

/// Nothing that others do, and nothing that happens to the balance, makes a holding worth less:
/// it keeps its shares, and they redeem to no fewer assets than before.
pub proof fn law_others_never_lower_a_holding(v: EnvView, step: Step, h: Holding)
    requires
        v.sound(),
        v.position(h).shares > 0,
        step.holding() != Some(h),
    ensures
        v.after(step).position(h) == v.position(h),
        v.after(step).payout(h.token, v.position(h).shares as int) >= v.payout(
            h.token,
            v.position(h).shares as int,
        ),
{
    let w = v.after(step);
    law_holdings_are_separate(v, step, h);
    law_every_step_keeps_accounts_sound(v, step);
    accounts::lemma_holding_bounds(v, h);
    accounts::lemma_holding_bounds(w, h);
    assert(v.pool_sound(h.token));
    assert(w.pool_sound(h.token));
    law_exchange_rate_never_falls(v, step, h.token);
    let p = v.pool(h.token);
    let q = w.pool(h.token);
    math::lemma_better_rate(
        v.position(h).shares as int,
        p.total_managed_assets as int,
        p.total_shares as int,
        q.total_managed_assets as int,
        q.total_shares as int,
    );
}

/// Over a whole run, nothing that others do makes a holding worth less.
pub proof fn law_others_never_lower_a_holding_over_a_run(v: EnvView, steps: Seq<Step>, h: Holding)
    requires
        v.sound(),
        v.position(h).shares > 0,
        forall|i: int| 0 <= i < steps.len() ==> (#[trigger] steps[i]).holding() != Some(h),
    ensures
        v.after_all(steps).sound(),
        v.after_all(steps).position(h) == v.position(h),
        v.after_all(steps).payout(h.token, v.position(h).shares as int) >= v.payout(
            h.token,
            v.position(h).shares as int,
        ),
    decreases steps.len(),
{
    if steps.len() > 0 {
        let earlier = steps.drop_last();
        assert forall|i: int| 0 <= i < earlier.len() implies (#[trigger] earlier[i]).holding()
            != Some(h) by {
            assert(earlier[i] == steps[i]);
        }
        law_others_never_lower_a_holding_over_a_run(v, earlier, h);
        law_others_never_lower_a_holding(v.after_all(earlier), steps.last(), h);
        law_every_step_keeps_accounts_sound(v.after_all(earlier), steps.last());
    }
}

/// Assets enter the value of shares by deposits and reports of yield alone, and leave it by
/// redemptions alone; and each moves the managed assets by just what it was for.
pub proof fn law_managed_assets_move_by_asset_calls_alone(v: EnvView, step: Step, token: Address)
    requires
        v.sound(),
    ensures
        v.after(step).pool(token).total_managed_assets == v.pool(token).total_managed_assets
            + v.flow(step, token),
{
    let p = v.pool(token);
    assert(v.pool_sound(token));
    match step {
        Step::Withdraw { holding, shares } => {
            if v.redemption_refusal(holding, shares as int) is None && holding.token == token {
                accounts::lemma_holding_bounds(v, holding);
                math::lemma_part_of_whole(
                    shares as int,
                    p.total_managed_assets as int,
                    p.total_shares as int,
                );
            }
        },
        Step::EmergencyWithdraw { holding, shares } => {
            if v.redemption_refusal(holding, shares as int) is None && holding.token == token {
                accounts::lemma_holding_bounds(v, holding);
                math::lemma_part_of_whole(
                    shares as int,
                    p.total_managed_assets as int,
                    p.total_shares as int,
                );
            }
        },
        _ => {},
    }
}

/// Principal rises by deposits alone, by just the amount deposited, and falls by redemptions
/// alone, by no more than is paid out. Yield never moves it.
pub proof fn law_principal_moves_by_deposits_and_redemptions_alone(
    v: EnvView,
    step: Step,
    token: Address,
)
    requires
        v.sound(),
    ensures
        ({
            let moved = v.after(step).pool(token).total_deposits - v.pool(token).total_deposits;
            let accepted = !v.aborts(step) && v.refusal(step) is None && step.token() == Some(
                token,
            );
            match step {
                Step::Deposit { amount, .. } => moved == if accepted {
                    amount as int
                } else {
                    0
                },
                Step::Withdraw { shares, .. } => if accepted {
                    -v.payout(token, shares as int) <= moved <= 0
                } else {
                    moved == 0
                },
                Step::EmergencyWithdraw { shares, .. } => if accepted {
                    -v.payout(token, shares as int) <= moved <= 0
                } else {
                    moved == 0
                },
                _ => moved == 0,
            }
        }),
{
    assert(v.pool_sound(token));
    match step {
        Step::Withdraw { holding, shares } => {
            if v.redemption_refusal(holding, shares as int) is None && holding.token == token {
                lemma_principal_redeemed(v, holding, shares);
            }
        },
        Step::EmergencyWithdraw { holding, shares } => {
            if v.redemption_refusal(holding, shares as int) is None && holding.token == token {
                lemma_principal_redeemed(v, holding, shares);
            }
        },
        _ => {},
    }
}

proof fn lemma_principal_redeemed(v: EnvView, h: Holding, shares: i128)
    requires
        v.sound(),
        v.redemption_refusal(h, shares as int) is None,
    ensures
        ({
            let p = v.pool(h.token);
            let q = p.after_redemption(v.position(h).shares as int, shares as int);
            0 <= p.total_deposits - q.total_deposits <= v.payout(h.token, shares as int)
        }),
{
    let p = v.pool(h.token);
    accounts::lemma_holding_bounds(v, h);
    assert(v.pool_sound(h.token));
    math::lemma_part_of_whole(shares as int, p.total_deposits as int, p.total_shares as int);
    math::lemma_two_totals(
        shares as int,
        p.total_deposits as int,
        p.total_managed_assets as int,
        p.total_shares as int,
    );
}

/// The managed assets of a token are, at any time, all that was ever deposited and reported as
/// yield, less all that was ever paid out. And principal never exceeds what was ever deposited.
pub proof fn law_managed_assets_are_the_net_flow(
    contract: Address,
    sequence: u32,
    steps: Seq<Step>,
    token: Address,
)
    ensures
        ({
            let v = EnvView::fresh(contract, sequence);
            let p = v.after_all(steps).pool(token);
            &&& p.total_managed_assets == v.net_flow(steps, token)
            &&& p.total_deposits <= v.principal_in(steps, token)
        }),
    decreases steps.len(),
{
    let v = EnvView::fresh(contract, sequence);
    if steps.len() > 0 {
        let earlier = v.after_all(steps.drop_last());
        law_managed_assets_are_the_net_flow(contract, sequence, steps.drop_last(), token);
        law_every_run_keeps_accounts_sound(contract, sequence, steps.drop_last());
        law_managed_assets_move_by_asset_calls_alone(earlier, steps.last(), token);
        law_principal_moves_by_deposits_and_redemptions_alone(earlier, steps.last(), token);
    }
}

/// Where no yield comes in, a share is worth exactly one asset: shares, principal and managed
/// assets that are equal stay equal.
pub proof fn law_without_yield_the_rate_is_one(v: EnvView, step: Step, token: Address)
    requires
        v.sound(),
        v.pool(token).total_managed_assets == v.pool(token).total_shares,
        v.pool(token).total_deposits == v.pool(token).total_shares,
        !(step is RecordYield),
    ensures
        v.after(step).pool(token).total_managed_assets == v.after(step).pool(token).total_shares,
        v.after(step).pool(token).total_deposits == v.after(step).pool(token).total_shares,
{
    let p = v.pool(token);
    let t = p.total_shares as int;
    assert(v.pool_sound(token));
    if step.token() == Some(token) && t > 0 {
        match step {
            Step::Deposit { amount, .. } => {
                lemma_rate_of_one(amount as int, t);
            },
            Step::Withdraw { holding, shares } => {
                accounts::lemma_holding_bounds(v, holding);
                lemma_rate_of_one(shares as int, t);
            },
            Step::EmergencyWithdraw { holding, shares } => {
                accounts::lemma_holding_bounds(v, holding);
                lemma_rate_of_one(shares as int, t);
            },
            _ => {},
        }
    }
}

proof fn lemma_rate_of_one(part: int, whole: int)
    requires
        whole > 0,
    ensures
        part >= 0 ==> math::pro_rata(part, whole, whole) == part,
{
    assert((part * whole) / whole == part) by (nonlinear_arith)
        requires
            whole > 0,
    ;
    assert(part >= 0 ==> part * whole >= 0) by (nonlinear_arith)
        requires
            whole > 0,
    ;
}

/// A contract that was set up stays set up, and is never set up twice.
pub proof fn law_set_up_once(v: EnvView, step: Step, admin: Address)
    requires
        v.config.admin is Some,
    ensures
        v.after(step).config.admin is Some,
        v.refusal(Step::Initialize { admin }) == Some(PoolError::AlreadyInitialized),
        v.after(Step::Initialize { admin }) == v,
{
}

/// The admin changes only by the admin's own word, or by the word of the one whom an admin
/// proposed.
pub proof fn law_admin_changes_by_admin_or_proposed(v: EnvView, step: Step)
    requires
        v.config.admin is Some,
        v.after(step).config.admin != v.config.admin,
    ensures
        step is SetAdmin || step is AcceptAdmin,
        step is SetAdmin ==> v.authority(step) == v.config.admin,
        step is AcceptAdmin ==> v.authority(step) == v.config.proposed_admin && v.after(
            step,
        ).config.admin == v.config.proposed_admin,
{
}

/// Only the admin pauses the contract and ends the pause, so emergency withdrawals happen in an
/// emergency that the admin declared.
pub proof fn law_only_the_admin_pauses(v: EnvView, step: Step)
    requires
        v.config.admin is Some,
        v.after(step).config.paused != v.config.paused,
    ensures
        step is Pause || step is Unpause,
        v.authority(step) == v.config.admin,
{
}

} // verus!
