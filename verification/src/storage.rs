//! That what the calls have the ledger write is what they go on to see.
use vstd::prelude::*;

use crate::accounts;
use crate::address::{Address, Holding};
use crate::data_key::{DataKey, Value};
use crate::entries;
use crate::entries::Place;
use crate::env::{Action, Config, EnvView, Event, DEFAULT_WITHDRAWAL_COOLDOWN};
use crate::rules::CURRENT_VERSION;
use crate::steps::Step;

verus! {

/// What `storage` becomes by the requests `actions`.
pub open spec fn written(storage: Map<DataKey, Value>, actions: Seq<Action>) -> Map<DataKey, Value>
    decreases actions.len(),
{
    if actions.len() == 0 {
        storage
    } else {
        let earlier = written(storage, actions.drop_last());
        match actions.last() {
            Action::Store { key, value } => earlier.insert(key, value),
            Action::Remove { key } => earlier.remove(key),
            _ => earlier,
        }
    }
}

impl DataKey {
    /// What is read under this key in `storage`.
    pub open spec fn read_in(self, storage: Map<DataKey, Value>) -> Option<Value> {
        if storage.contains_key(self) {
            Some(storage[self])
        } else {
            self.absent()
        }
    }
}

impl EnvView {
    /// Whether a storage that held `storage` when the first request was made shows, once all
    /// requests so far are met, just what the calls see.
    pub open spec fn in_step_with(self, storage: Map<DataKey, Value>) -> bool {
        forall|key: DataKey| #[trigger]
            self.entry(key) == key.read_in(written(storage, self.actions))
    }

    /// Whether the single entries that are to be kept alive are all there: entries of holdings
    /// that hold shares.
    pub open spec fn keeps_what_is_there(self) -> bool {
        forall|key: DataKey| #[trigger]
            self.entry_ttl.contains_key(key) ==> (key.place() is Position
                && self.positions.contains_key(key.place()->Position_0))
    }
}

/// A contract with nothing in its storage sees what an empty storage shows.
pub proof fn law_fresh_is_in_step(contract: Address, sequence: u32)
    ensures
        EnvView::fresh(contract, sequence).in_step_with(Map::empty()),
{
}

/// What one more request does to the storage.
proof fn lemma_one_more(storage: Map<DataKey, Value>, actions: Seq<Action>, a: Action)
    ensures
        written(storage, actions.push(a)) == match a {
            Action::Store { key, value } => written(storage, actions).insert(key, value),
            Action::Remove { key } => written(storage, actions).remove(key),
            _ => written(storage, actions),
        },
{
    assert(actions.push(a).drop_last() =~= actions);
}

/// Nothing but entries and requests matters.
proof fn lemma_same_in_step(v: EnvView, w: EnvView, storage: Map<DataKey, Value>)
    requires
        v.in_step_with(storage),
        v.same_entries(w),
        v.actions == w.actions,
    ensures
        w.in_step_with(storage),
{
    assert forall|key: DataKey| #[trigger]
        w.entry(key) == key.read_in(written(storage, w.actions)) by {
        assert(v.entry(key) == key.read_in(written(storage, v.actions)));
    }
}

/// A request that is not about storage leaves it in step.
proof fn lemma_ask_in_step(v: EnvView, a: Action, storage: Map<DataKey, Value>)
    requires
        v.in_step_with(storage),
        !(a is Store),
        !(a is Remove),
    ensures
        v.asked(a).in_step_with(storage),
{
    let w = v.asked(a);
    lemma_one_more(storage, v.actions, a);
    assert forall|key: DataKey| #[trigger]
        w.entry(key) == key.read_in(written(storage, w.actions)) by {
        assert(v.entry(key) == key.read_in(written(storage, v.actions)));
    }
}

/// Writing an entry here and there keeps the two in step.
proof fn lemma_store_in_step(
    v: EnvView,
    key: DataKey,
    value: Value,
    storage: Map<DataKey, Value>,
)
    requires
        v.in_step_with(storage),
        key.suits(value),
    ensures
        v.stored(key, value).in_step_with(storage),
{
    let w = v.stored(key, value);
    lemma_one_more(storage, v.actions, Action::Store { key, value });
    assert forall|other: DataKey| #[trigger]
        w.entry(other) == other.read_in(written(storage, w.actions)) by {
        assert(v.entry(other) == other.read_in(written(storage, v.actions)));
        entries::law_entries_are_read_back(v, key, value, other);
        assert(w.entry(other) == v.with_entry(key, value).entry(other));
    }
}

/// Removing a holding here and there keeps the two in step.
proof fn lemma_remove_position_in_step(v: EnvView, h: Holding, storage: Map<DataKey, Value>)
    requires
        v.in_step_with(storage),
    ensures
        v.without_position(h).removing(DataKey::shares_of(h)).removing(
            DataKey::timestamp_of(h),
        ).in_step_with(storage),
{
    let shares = DataKey::shares_of(h);
    let timestamp = DataKey::timestamp_of(h);
    let w = v.without_position(h).removing(shares).removing(timestamp);
    let first = Action::Remove { key: shares };
    lemma_one_more(storage, v.actions, first);
    lemma_one_more(storage, v.actions.push(first), Action::Remove { key: timestamp });
    assert forall|key: DataKey| #[trigger]
        w.entry(key) == key.read_in(written(storage, w.actions)) by {
        assert(v.entry(key) == key.read_in(written(storage, v.actions)));
        match key.place() {
            Place::Contract => {},
            Place::Pool(token) => {
                assert(w.pool(token) == v.pool(token));
            },
            Place::Position(k) => {
                if k == h {
                    assert(key == shares || key == timestamp);
                } else {
                    assert(w.position(k) == v.position(k));
                }
            },
        }
    }
}

/// Handing the contract over keeps storage in step.
proof fn lemma_hand_over_in_step(v: EnvView, new_admin: Address, storage: Map<DataKey, Value>)
    requires
        v.in_step_with(storage),
    ensures
        v.handed_to(new_admin).in_step_with(storage),
{
    let named = v.stored(DataKey::Admin, Value::Party(new_admin));
    lemma_store_in_step(v, DataKey::Admin, Value::Party(new_admin), storage);
    let key = DataKey::ProposedAdmin;
    let dropped = named.with_config(Config { proposed_admin: None, ..named.config }).removing(key);
    lemma_one_more(storage, named.actions, Action::Remove { key });
    assert forall|other: DataKey| #[trigger]
        dropped.entry(other) == other.read_in(written(storage, dropped.actions)) by {
        assert(named.entry(other) == other.read_in(written(storage, named.actions)));
        match other.place() {
            Place::Contract => {
                assert(other != key ==> dropped.config.entry(other) == named.config.entry(other));
            },
            Place::Pool(token) => {
                assert(dropped.pool(token) == named.pool(token));
            },
            Place::Position(k) => {
                assert(dropped.position(k) == named.position(k));
            },
        }
    }
    let told = Action::Publish(Event::AdminTransferred { new_admin });
    lemma_ask_in_step(dropped, told, storage);
    lemma_same_in_step(dropped.asked(told), v.handed_to(new_admin), storage);
}

/// A redemption keeps storage in step.
proof fn lemma_redemption_in_step(
    v: EnvView,
    h: Holding,
    shares: int,
    storage: Map<DataKey, Value>,
)
    requires
        v.in_step_with(storage),
    ensures
        v.after_redemption(h, shares).in_step_with(storage),
{
    let w = v.after_redemption(h, shares);
    if v.redemption_refusal(h, shares) is Some {
        lemma_same_in_step(v, w, storage);
    } else {
        let position = v.position(h);
        let p = v.pool(h.token).after_redemption(position.shares as int, shares);
        let count = DataKey::DepositorCount(h.token);
        let settled = if position.shares == shares {
            let gone = v.without_position(h).removing(DataKey::shares_of(h)).removing(
                DataKey::timestamp_of(h),
            );
            lemma_remove_position_in_step(v, h, storage);
            lemma_store_in_step(gone, count, Value::Number(p.depositor_count), storage);
            gone.stored(count, Value::Number(p.depositor_count))
        } else {
            let remaining = Value::Amount((position.shares - shares) as i128);
            lemma_store_in_step(v, DataKey::shares_of(h), remaining, storage);
            v.stored(DataKey::shares_of(h), remaining)
        };
        let k1 = DataKey::TotalShares(h.token);
        let k2 = DataKey::TotalManagedAssets(h.token);
        let k3 = DataKey::TotalDeposits(h.token);
        let v1 = settled.stored(k1, Value::Amount(p.total_shares));
        let v2 = v1.stored(k2, Value::Amount(p.total_managed_assets));
        let v3 = v2.stored(k3, Value::Amount(p.total_deposits));
        lemma_store_in_step(settled, k1, Value::Amount(p.total_shares), storage);
        lemma_store_in_step(v1, k2, Value::Amount(p.total_managed_assets), storage);
        lemma_store_in_step(v2, k3, Value::Amount(p.total_deposits), storage);
        let paid = w.actions.last();
        lemma_ask_in_step(v3, paid, storage);
        assert(v3.pool(h.token) == p);
        assert(v3.pools =~= w.pools);
        assert(v3.positions =~= w.positions);
        lemma_same_in_step(v3.asked(paid), w, storage);
    }
}

/// A deposit keeps storage in step.
proof fn lemma_deposit_in_step(
    v: EnvView,
    h: Holding,
    amount: int,
    storage: Map<DataKey, Value>,
)
    requires
        v.in_step_with(storage),
    ensures
        v.after_deposit(h, amount).in_step_with(storage),
{
    let w = v.after_deposit(h, amount);
    let auth = Action::RequireAuth(h.provider);
    let asked = v.asked(auth);
    lemma_ask_in_step(v, auth, storage);
    if v.deposit_refusal(h, amount) is Some {
        lemma_same_in_step(asked, w, storage);
    } else {
        let held = v.position(h).shares;
        let p = v.pool(h.token).after_deposit(held as int, amount);
        let transfer = Action::Transfer {
            token: h.token,
            from: h.provider,
            to: v.contract,
            amount: amount as i128,
        };
        let paid = asked.asked(transfer);
        lemma_ask_in_step(asked, transfer, storage);
        let count = DataKey::DepositorCount(h.token);
        let counted = if held == 0 {
            lemma_store_in_step(paid, count, Value::Number(p.depositor_count), storage);
            paid.stored(count, Value::Number(p.depositor_count))
        } else {
            paid
        };
        let shares = Value::Amount((held + v.minted(h.token, amount)) as i128);
        let k1 = DataKey::TotalShares(h.token);
        let k2 = DataKey::TotalDeposits(h.token);
        let k3 = DataKey::TotalManagedAssets(h.token);
        let v1 = counted.stored(DataKey::shares_of(h), shares);
        let v2 = v1.stored(DataKey::timestamp_of(h), Value::Number(v.sequence));
        let v3 = v2.stored(k1, Value::Amount(p.total_shares));
        let v4 = v3.stored(k2, Value::Amount(p.total_deposits));
        let v5 = v4.stored(k3, Value::Amount(p.total_managed_assets));
        lemma_store_in_step(counted, DataKey::shares_of(h), shares, storage);
        lemma_store_in_step(v1, DataKey::timestamp_of(h), Value::Number(v.sequence), storage);
        lemma_store_in_step(v2, k1, Value::Amount(p.total_shares), storage);
        lemma_store_in_step(v3, k2, Value::Amount(p.total_deposits), storage);
        lemma_store_in_step(v4, k3, Value::Amount(p.total_managed_assets), storage);
        let told = w.actions.last();
        lemma_ask_in_step(v5, told, storage);
        assert(v5.pool(h.token) == p);
        assert(v5.pools =~= w.pools);
        assert(v5.positions =~= w.positions);
        lemma_same_in_step(v5.asked(told), w, storage);
    }
}

/// A call that writes one entry between asking for an authorisation and publishing an event keeps
/// storage in step.
proof fn lemma_one_entry_in_step(
    v: EnvView,
    w: EnvView,
    auth: Action,
    key: DataKey,
    value: Value,
    told: Action,
    storage: Map<DataKey, Value>,
)
    requires
        v.in_step_with(storage),
        auth is RequireAuth,
        told is Publish,
        key.suits(value),
        v.asked(auth).stored(key, value).asked(told).same_entries(w),
        v.asked(auth).stored(key, value).asked(told).actions == w.actions,
    ensures
        w.in_step_with(storage),
{
    lemma_ask_in_step(v, auth, storage);
    lemma_store_in_step(v.asked(auth), key, value, storage);
    lemma_ask_in_step(v.asked(auth).stored(key, value), told, storage);
    lemma_same_in_step(v.asked(auth).stored(key, value).asked(told), w, storage);
}

/// Setting the contract up keeps storage in step.
proof fn lemma_initialize_in_step(v: EnvView, admin: Address, storage: Map<DataKey, Value>)
    requires
        v.in_step_with(storage),
    ensures
        v.after_initialize(admin).in_step_with(storage),
{
    if v.config.admin is None {
        let cooldown = Value::Number(DEFAULT_WITHDRAWAL_COOLDOWN);
        let version = Value::Number(CURRENT_VERSION);
        let v1 = v.stored(DataKey::Admin, Value::Party(admin));
        let v2 = v1.stored(DataKey::Paused, Value::Flag(false));
        let v3 = v2.stored(DataKey::WithdrawalCooldown, cooldown);
        let v4 = v3.stored(DataKey::Version, version);
        lemma_store_in_step(v, DataKey::Admin, Value::Party(admin), storage);
        lemma_store_in_step(v1, DataKey::Paused, Value::Flag(false), storage);
        lemma_store_in_step(v2, DataKey::WithdrawalCooldown, cooldown, storage);
        lemma_store_in_step(v3, DataKey::Version, version, storage);
        lemma_same_in_step(v4, v.after_initialize(admin), storage);
    }
}

/// A withdrawal keeps storage in step, and so does an emergency withdrawal.
proof fn lemma_withdrawals_in_step(
    v: EnvView,
    h: Holding,
    shares: int,
    storage: Map<DataKey, Value>,
)
    requires
        v.in_step_with(storage),
    ensures
        v.after_withdrawal(h, shares).in_step_with(storage),
        v.after_emergency(h, shares).in_step_with(storage),
{
    let auth = Action::RequireAuth(h.provider);
    let asked = v.asked(auth).bumped();
    let checked = asked.cooldown_checked(h);
    lemma_ask_in_step(v, auth, storage);
    lemma_same_in_step(v.asked(auth), asked, storage);
    lemma_same_in_step(v.asked(auth), checked, storage);
    lemma_redemption_in_step(asked, h, shares, storage);
    lemma_redemption_in_step(checked, h, shares, storage);
    if v.redemption_refusal(h, shares) is None {
        if !v.config.paused && !v.cooling_down(h) {
            lemma_ask_in_step(
                checked.after_redemption(h, shares),
                v.after_withdrawal(h, shares).actions.last(),
                storage,
            );
        }
        if v.config.paused {
            lemma_ask_in_step(
                asked.after_redemption(h, shares),
                v.after_emergency(h, shares).actions.last(),
                storage,
            );
        }
    }
}

/// What the admin does keeps storage in step.
proof fn lemma_admin_in_step(v: EnvView, step: Step, storage: Map<DataKey, Value>)
    requires
        v.in_step_with(storage),
        v.config.admin is Some,
        v.refusal(step) is None,
        !step.moves_assets(),
        !(step is Initialize),
        !(step is AcceptAdmin),
        !(step is LedgerCloses),
        !(step is BalanceMoves),
    ensures
        v.after(step).in_step_with(storage),
{
    let w = v.after(step);
    let n = v.actions.len() as int;
    let auth = Action::RequireAuth(v.config.admin->0);
    lemma_ask_in_step(v, auth, storage);
    match step {
        Step::Upgrade { new_wasm_hash } => {
            let version = Value::Number(w.config.version);
            let told = w.actions[n + 2];
            let before = v.asked(auth).stored(DataKey::Version, version).asked(told);
            lemma_one_entry_in_step(v, before, auth, DataKey::Version, version, told, storage);
            lemma_ask_in_step(before, Action::UpdateWasm(new_wasm_hash), storage);
            lemma_same_in_step(before.asked(Action::UpdateWasm(new_wasm_hash)), w, storage);
        },
        Step::SetMaxPoolSize { token, max } => {
            let key = DataKey::MaxPoolSize(token);
            let told = w.actions[n + 2];
            lemma_one_entry_in_step(v, w, auth, key, Value::Amount(max), told, storage);
        },
        Step::SetWithdrawalCooldown { ledgers } => {
            let key = DataKey::WithdrawalCooldown;
            let told = w.actions[n + 2];
            lemma_one_entry_in_step(v, w, auth, key, Value::Number(ledgers), told, storage);
        },
        Step::SetLoanManager { token, loan_manager } => {
            let key = DataKey::LoanManager(token);
            let told = w.actions[n + 2];
            lemma_one_entry_in_step(v, w, auth, key, Value::Party(loan_manager), told, storage);
        },
        Step::ProposeAdmin { new_admin } => {
            let key = DataKey::ProposedAdmin;
            let told = w.actions[n + 2];
            lemma_one_entry_in_step(v, w, auth, key, Value::Party(new_admin), told, storage);
        },
        Step::Pause => {
            let told = w.actions[n + 2];
            lemma_one_entry_in_step(
                v,
                w,
                auth,
                DataKey::Paused,
                Value::Flag(true),
                told,
                storage,
            );
        },
        Step::Unpause => {
            let told = w.actions[n + 2];
            lemma_one_entry_in_step(
                v,
                w,
                auth,
                DataKey::Paused,
                Value::Flag(false),
                told,
                storage,
            );
        },
        Step::SetAdmin { new_admin } => {
            lemma_same_in_step(v.asked(auth), v.admin_asked(), storage);
            lemma_hand_over_in_step(v.admin_asked(), new_admin, storage);
        },
        _ => {},
    }
}

/// What the calls have the ledger write is what they go on to see: a storage in step with a
/// contract is in step with it after any call, once what the call asked for is done.
pub proof fn law_every_step_keeps_storage_in_step(
    v: EnvView,
    step: Step,
    storage: Map<DataKey, Value>,
)
    requires
        v.in_step_with(storage),
    ensures
        v.after(step).in_step_with(storage),
{
    let w = v.after(step);
    if !v.aborts(step) {
        match step {
            Step::Deposit { holding, amount } => {
                lemma_deposit_in_step(v, holding, amount as int, storage);
            },
            Step::Withdraw { holding, shares } => {
                lemma_withdrawals_in_step(v, holding, shares as int, storage);
            },
            Step::EmergencyWithdraw { holding, shares } => {
                lemma_withdrawals_in_step(v, holding, shares as int, storage);
            },
            Step::RecordYield { token, amount } => {
                let auth = Action::RequireAuth(v.yield_reporter(token)->0);
                lemma_ask_in_step(v, auth, storage);
                if v.yield_refusal(token, amount as int) is Some {
                    lemma_same_in_step(v.asked(auth), w, storage);
                } else {
                    let key = DataKey::TotalManagedAssets(token);
                    let value = Value::Amount(w.pool(token).total_managed_assets);
                    let told = w.actions.last();
                    lemma_one_entry_in_step(v, w, auth, key, value, told, storage);
                }
            },
            Step::Initialize { admin } => {
                lemma_initialize_in_step(v, admin, storage);
            },
            Step::AcceptAdmin => {
                if v.config.proposed_admin is Some {
                    let accepted = Action::RequireAuth(v.config.proposed_admin->0);
                    let asked = v.bumped().asked(accepted);
                    lemma_ask_in_step(v, accepted, storage);
                    lemma_same_in_step(v.asked(accepted), asked, storage);
                    lemma_hand_over_in_step(asked, v.config.proposed_admin->0, storage);
                }
            },
            Step::LedgerCloses { .. } => {
                lemma_same_in_step(v, w, storage);
            },
            Step::BalanceMoves { .. } => {
                lemma_same_in_step(v, w, storage);
            },
            _ => {
                if v.refusal(step) is Some {
                    let auth = Action::RequireAuth(v.config.admin->0);
                    lemma_ask_in_step(v, auth, storage);
                    lemma_same_in_step(v.asked(auth), w, storage);
                } else {
                    lemma_admin_in_step(v, step, storage);
                }
            },
        }
    }
}

/// Over a whole run from a contract with nothing in its storage, the storage that the calls wrote
/// shows just what they see.
pub proof fn law_every_run_keeps_storage_in_step(
    contract: Address,
    sequence: u32,
    steps: Seq<Step>,
)
    ensures
        EnvView::fresh(contract, sequence).after_all(steps).in_step_with(Map::empty()),
    decreases steps.len(),
{
    if steps.len() == 0 {
        law_fresh_is_in_step(contract, sequence);
    } else {
        law_every_run_keeps_storage_in_step(contract, sequence, steps.drop_last());
        law_every_step_keeps_storage_in_step(
            EnvView::fresh(contract, sequence).after_all(steps.drop_last()),
            steps.last(),
            Map::empty(),
        );
    }
}

/// No call asks to keep an entry alive that is not there.
pub proof fn law_only_what_is_there_is_kept(v: EnvView, step: Step)
    requires
        v.sound(),
        v.keeps_what_is_there(),
    ensures
        v.after(step).keeps_what_is_there(),
{
    let w = v.after(step);
    match step.holding() {
        Some(h) => {
            accounts::lemma_holding_bounds(v, h);
            assert forall|key: DataKey| #[trigger]
                w.entry_ttl.contains_key(key) implies key.place() is Position
                && w.positions.contains_key(key.place()->Position_0) by {
                assert(v.entry_ttl.contains_key(key) || key == DataKey::shares_of(h) || key
                    == DataKey::timestamp_of(h));
            }
        },
        None => {},
    }
}

} // verus!
