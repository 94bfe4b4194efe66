//! What one call of the contract sees of the ledger, and what it asks of it.
//!
//! A call reads and changes the entries held here; it does not reach the ledger itself. Whatever
//! it wants done there (an entry written, a signature checked, tokens moved, an event published,
//! new code installed, an entry kept alive) it leaves here as a request.
use vstd::prelude::*;

use crate::address::{Address, Holding};
use crate::data_key::{DataKey, Value};
use crate::table::Table;

verus! {

/// Cooldown, in ledgers, that holds until the admin sets another.
pub const DEFAULT_WITHDRAWAL_COOLDOWN: u32 = 1_440;

/// The entries that no token has of its own.
#[derive(Clone, Copy, Debug, PartialEq, Eq, Structural)]
pub struct Config {
    /// Nobody before `initialize`.
    pub admin: Option<Address>,
    pub proposed_admin: Option<Address>,
    pub paused: bool,
    /// Ledgers that must pass between a deposit and a withdrawal.
    pub withdrawal_cooldown: u32,
    pub version: u32,
}

/// The entries of one token's pool.
#[derive(Clone, Copy, Debug, PartialEq, Eq, Structural)]
pub struct Pool {
    /// Cap on `total_deposits`; 0 stands for no cap.
    pub max_pool_size: i128,
    pub total_shares: i128,
    pub total_deposits: i128,
    pub total_managed_assets: i128,
    pub loan_manager: Option<Address>,
    pub depositor_count: u32,
}

/// The entries of one holding.
#[derive(Clone, Copy, Debug, PartialEq, Eq, Structural)]
pub struct Position {
    pub shares: i128,
    /// Ledger sequence of the latest deposit.
    pub deposit_ledger: Option<u32>,
}

/// A request to keep an entry alive: if it has `threshold` ledgers or fewer to live, let it live
/// for `extend_to` ledgers from now.
#[derive(Clone, Copy, Debug, PartialEq, Eq, Structural)]
pub struct TtlExtension {
    pub threshold: u32,
    pub extend_to: u32,
}

/// What the contract makes known to the world.
#[derive(Clone, Copy, Debug, PartialEq, Eq, Structural)]
pub enum Event {
    Deposit { provider: Address, token: Address, amount: i128, shares: i128 },
    Withdraw { provider: Address, token: Address, amount: i128, shares: i128 },
    EmergencyWithdraw { provider: Address, token: Address, amount: i128, shares: i128 },
    YieldDistributed { token: Address, amount: i128 },
    DepositCapUpdated { token: Address, old_max: i128, new_max: i128, total_deposits: i128 },
    WithdrawalCooldownUpdated { old_cooldown: u32, new_cooldown: u32 },
    LoanManagerUpdated { token: Address, loan_manager: Address },
    AdminProposed { current_admin: Address, proposed_admin: Address },
    AdminTransferred { new_admin: Address },
    PoolPaused,
    PoolUnpaused,
    ContractUpgraded { old_version: u32, new_version: u32 },
}

/// A step that the ledger takes for the call. The steps are taken in the order in which they were
/// asked for, and a step that the ledger refuses undoes the whole call.
#[derive(Clone, Copy, Debug, PartialEq, Eq)]
pub enum Action {
    /// Go on only if this address has authorised the call.
    RequireAuth(Address),
    /// Write an entry.
    Store { key: DataKey, value: Value },
    /// Remove an entry.
    Remove { key: DataKey },
    /// Move tokens.
    Transfer { token: Address, from: Address, to: Address, amount: i128 },
    /// Publish an event.
    Publish(Event),
    /// Replace the contract's code by the code with this hash.
    UpdateWasm([u8; 32]),
}

/// The contents of an [`Env`].
#[verifier::ext_equal]
pub struct EnvView {
    pub contract: Address,
    pub sequence: u32,
    pub config: Config,
    pub pools: Map<Address, Pool>,
    pub positions: Map<Holding, Position>,
    pub balances: Map<Address, i128>,
    pub actions: Seq<Action>,
    pub instance_ttl: Option<TtlExtension>,
    pub entry_ttl: Map<DataKey, TtlExtension>,
}

impl Config {
    /// The entries before anything was written to them.
    pub open spec fn unset() -> Config {
        Config {
            admin: None,
            proposed_admin: None,
            paused: false,
            withdrawal_cooldown: DEFAULT_WITHDRAWAL_COOLDOWN,
            version: 0,
        }
    }
}

impl Pool {
    /// The entries of a token that has no pool yet.
    pub open spec fn unset() -> Pool {
        Pool {
            max_pool_size: 0,
            total_shares: 0,
            total_deposits: 0,
            total_managed_assets: 0,
            loan_manager: None,
            depositor_count: 0,
        }
    }
}

impl Position {
    /// The entries of someone who holds no shares.
    pub open spec fn unset() -> Position {
        Position { shares: 0, deposit_ledger: None }
    }
}

impl EnvView {
    /// The pool of `token`.
    pub open spec fn pool(self, token: Address) -> Pool {
        if self.pools.contains_key(token) {
            self.pools[token]
        } else {
            Pool::unset()
        }
    }

    /// The stake `h`.
    pub open spec fn position(self, h: Holding) -> Position {
        if self.positions.contains_key(h) {
            self.positions[h]
        } else {
            Position::unset()
        }
    }

    /// The same with one more request at the end.
    pub open spec fn asked(self, a: Action) -> EnvView {
        EnvView { actions: self.actions.push(a), ..self }
    }

    /// The same with the request to write an entry.
    pub open spec fn storing(self, key: DataKey, value: Value) -> EnvView {
        self.asked(Action::Store { key, value })
    }

    /// The same with the request to remove an entry.
    pub open spec fn removing(self, key: DataKey) -> EnvView {
        self.asked(Action::Remove { key })
    }

    /// The same with other contract-wide entries.
    pub open spec fn with_config(self, config: Config) -> EnvView {
        EnvView { config, ..self }
    }

    /// The same with other entries for `token`.
    pub open spec fn with_pool(self, token: Address, pool: Pool) -> EnvView {
        EnvView { pools: self.pools.insert(token, pool), ..self }
    }

    /// The same with other entries for `h`.
    pub open spec fn with_position(self, h: Holding, position: Position) -> EnvView {
        EnvView { positions: self.positions.insert(h, position), ..self }
    }

    /// The same without entries for `h`, nor requests to keep them alive.
    pub open spec fn without_position(self, h: Holding) -> EnvView {
        EnvView {
            positions: self.positions.remove(h),
            entry_ttl: self.entry_ttl.remove(DataKey::shares_of(h)).remove(
                DataKey::timestamp_of(h),
            ),
            ..self
        }
    }

    /// The same with the request to keep the contract-wide and per-token entries alive.
    pub open spec fn keeping_instance(self, ttl: TtlExtension) -> EnvView {
        EnvView { instance_ttl: Some(ttl), ..self }
    }

    /// The same with the request to keep the entry under `key` alive.
    pub open spec fn keeping(self, key: DataKey, ttl: TtlExtension) -> EnvView {
        EnvView { entry_ttl: self.entry_ttl.insert(key, ttl), ..self }
    }
}

/// What one call of the contract sees of the ledger, and what it asks of it.
///
/// The tables hold the rows that the call may touch; a row that is missing stands for entries
/// that were never written. They may hold every row there is.
#[derive(Debug)]
pub struct Env {
    /// The contract's own address.
    pub contract: Address,
    /// Sequence number of the ledger in which the call runs.
    pub sequence: u32,
    pub config: Config,
    pub pools: Table<Address, Pool>,
    pub positions: Table<Holding, Position>,
    /// Token: the balance that the contract's own address holds.
    pub balances: Table<Address, i128>,
    /// Requests, in the order in which they were made.
    pub actions: Vec<Action>,
    /// Request to keep the contract-wide and per-token entries alive.
    pub instance_ttl: Option<TtlExtension>,
    /// Requests to keep single entries alive.
    pub entry_ttl: Table<DataKey, TtlExtension>,
}

impl View for Env {
    type V = EnvView;

    open spec fn view(&self) -> EnvView {
        EnvView {
            contract: self.contract,
            sequence: self.sequence,
            config: self.config,
            pools: self.pools@,
            positions: self.positions@,
            balances: self.balances@,
            actions: self.actions@,
            instance_ttl: self.instance_ttl,
            entry_ttl: self.entry_ttl@,
        }
    }
}

impl EnvView {
    /// A contract with nothing in its storage.
    pub open spec fn fresh(contract: Address, sequence: u32) -> EnvView {
        EnvView {
            contract,
            sequence,
            config: Config::unset(),
            pools: Map::empty(),
            positions: Map::empty(),
            balances: Map::empty(),
            actions: Seq::empty(),
            instance_ttl: None,
            entry_ttl: Map::empty(),
        }
    }
}

impl Env {
    /// A contract with nothing in its storage, called in the ledger `sequence`.
    pub fn new(contract: Address, sequence: u32) -> (env: Env)
        ensures
            env@ == EnvView::fresh(contract, sequence),
    {
        Env {
            contract,
            sequence,
            config: Config {
                admin: None,
                proposed_admin: None,
                paused: false,
                withdrawal_cooldown: DEFAULT_WITHDRAWAL_COOLDOWN,
                version: 0,
            },
            pools: Table::new(),
            positions: Table::new(),
            balances: Table::new(),
            actions: Vec::new(),
            instance_ttl: None,
            entry_ttl: Table::new(),
        }
    }

    /// The pool of `token`.
    pub fn pool(&self, token: &Address) -> (pool: Pool)
        ensures
            pool == self@.pool(*token),
    {
        match self.pools.get(token) {
            Some(pool) => pool,
            None => Pool {
                max_pool_size: 0,
                total_shares: 0,
                total_deposits: 0,
                total_managed_assets: 0,
                loan_manager: None,
                depositor_count: 0,
            },
        }
    }

    /// The stake `h`.
    pub fn position(&self, h: &Holding) -> (position: Position)
        ensures
            position == self@.position(*h),
    {
        match self.positions.get(h) {
            Some(position) => position,
            None => Position { shares: 0, deposit_ledger: None },
        }
    }

    /// Puts the entries of `token`.
    pub fn put_pool(&mut self, token: Address, pool: Pool)
        ensures
            final(self)@ == old(self)@.with_pool(token, pool),
    {
        self.pools.insert(token, pool);
    }

    /// Puts the entries of `h`.
    pub fn put_position(&mut self, h: Holding, position: Position)
        ensures
            final(self)@ == old(self)@.with_position(h, position),
    {
        self.positions.insert(h, position);
    }

    /// Removes the entries of `h`, here and in the ledger; what is removed need not be kept alive.
    pub fn remove_position(&mut self, h: Holding)
        ensures
            final(self)@ == old(self)@.without_position(h).removing(DataKey::shares_of(h)).removing(
                DataKey::timestamp_of(h),
            ),
    {
        let shares = DataKey::Shares(h.provider, h.token);
        let timestamp = DataKey::DepositTimestamp(h.provider, h.token);
        self.positions.remove(&h);
        self.entry_ttl.remove(&shares);
        self.entry_ttl.remove(&timestamp);
        self.ask(Action::Remove { key: shares });
        self.ask(Action::Remove { key: timestamp });
    }

    /// Drops the proposal of a new admin, here and in the ledger.
    pub fn remove_proposal(&mut self)
        ensures
            final(self)@ == old(self)@.with_config(
                (Config { proposed_admin: None, ..old(self)@.config }),
            ).removing(DataKey::ProposedAdmin),
    {
        self.config.proposed_admin = None;
        self.ask(Action::Remove { key: DataKey::ProposedAdmin });
    }

    /// Notes the balance of `token` that the contract's own address holds.
    pub fn set_balance(&mut self, token: Address, balance: i128)
        ensures
            final(self)@ == (EnvView {
                balances: old(self)@.balances.insert(token, balance),
                ..old(self)@
            }),
    {
        self.balances.insert(token, balance);
    }

    /// Adds a request.
    pub fn ask(&mut self, action: Action)
        ensures
            final(self)@ == old(self)@.asked(action),
    {
        self.actions.push(action);
    }

    /// Asks to keep the contract-wide and per-token entries alive.
    pub fn keep_instance(&mut self, ttl: TtlExtension)
        ensures
            final(self)@ == old(self)@.keeping_instance(ttl),
    {
        self.instance_ttl = Some(ttl);
    }

    /// Asks to keep the entry under `key` alive.
    pub fn keep(&mut self, key: DataKey, ttl: TtlExtension)
        ensures
            final(self)@ == old(self)@.keeping(key, ttl),
    {
        self.entry_ttl.insert(key, ttl);
    }
}

} // verus!
