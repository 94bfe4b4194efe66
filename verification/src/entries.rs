//! How the entries lie in storage: which of them stands under which key.
use vstd::prelude::*;

use crate::address::{Address, Holding};
use crate::data_key::{DataKey, Value};
use crate::env::{Action, Config, Env, EnvView, Pool, Position, DEFAULT_WITHDRAWAL_COOLDOWN};

verus! {

/// What an entry belongs to.
pub enum Place {
    Contract,
    Pool(Address),
    Position(Holding),
}

impl DataKey {
    /// What the entry belongs to.
    pub open spec fn place(self) -> Place {
        match self {
            DataKey::Admin => Place::Contract,
            DataKey::Paused => Place::Contract,
            DataKey::WithdrawalCooldown => Place::Contract,
            DataKey::MaxPoolSize(token) => Place::Pool(token),
            DataKey::TotalShares(token) => Place::Pool(token),
            DataKey::Shares(provider, token) => Place::Position(Holding { provider, token }),
            DataKey::DepositTimestamp(provider, token) => Place::Position(
                Holding { provider, token },
            ),
            DataKey::TotalDeposits(token) => Place::Pool(token),
            DataKey::TotalManagedAssets(token) => Place::Pool(token),
            DataKey::LoanManager(token) => Place::Pool(token),
            DataKey::DepositorCount(token) => Place::Pool(token),
            DataKey::ProposedAdmin => Place::Contract,
            DataKey::Version => Place::Contract,
        }
    }

    /// Whether `value` is of the kind that is kept under this key.
    pub open spec fn suits(self, value: Value) -> bool {
        match self {
            DataKey::Admin => value is Party,
            DataKey::Paused => value is Flag,
            DataKey::WithdrawalCooldown => value is Number,
            DataKey::MaxPoolSize(_) => value is Amount,
            DataKey::TotalShares(_) => value is Amount,
            DataKey::Shares(_, _) => value is Amount,
            DataKey::DepositTimestamp(_, _) => value is Number,
            DataKey::TotalDeposits(_) => value is Amount,
            DataKey::TotalManagedAssets(_) => value is Amount,
            DataKey::LoanManager(_) => value is Party,
            DataKey::DepositorCount(_) => value is Number,
            DataKey::ProposedAdmin => value is Party,
            DataKey::Version => value is Number,
        }
    }

    /// What stands for an entry that is not in storage, if anything does.
    pub open spec fn absent(self) -> Option<Value> {
        match self {
            DataKey::Admin => None,
            DataKey::Paused => Some(Value::Flag(false)),
            DataKey::WithdrawalCooldown => Some(Value::Number(DEFAULT_WITHDRAWAL_COOLDOWN)),
            DataKey::MaxPoolSize(_) => Some(Value::Amount(0)),
            DataKey::TotalShares(_) => Some(Value::Amount(0)),
            DataKey::Shares(_, _) => Some(Value::Amount(0)),
            DataKey::DepositTimestamp(_, _) => None,
            DataKey::TotalDeposits(_) => Some(Value::Amount(0)),
            DataKey::TotalManagedAssets(_) => Some(Value::Amount(0)),
            DataKey::LoanManager(_) => None,
            DataKey::DepositorCount(_) => Some(Value::Number(0)),
            DataKey::ProposedAdmin => None,
            DataKey::Version => Some(Value::Number(0)),
        }
    }

    /// Whether the entry lives in storage on its own, not with the contract.
    pub fn is_persistent(&self) -> (b: bool)
        ensures
            b == (self.place() is Position),
    {
        match self {
            DataKey::Shares(_, _) => true,
            DataKey::DepositTimestamp(_, _) => true,
            _ => false,
        }
    }
}

/// An address that may be missing, as an entry.
pub open spec fn party(address: Option<Address>) -> Option<Value> {
    match address {
        Some(a) => Some(Value::Party(a)),
        None => None,
    }
}

impl Config {
    /// What stands under a key of the contract.
    pub open spec fn entry(self, key: DataKey) -> Option<Value> {
        match key {
            DataKey::Admin => party(self.admin),
            DataKey::Paused => Some(Value::Flag(self.paused)),
            DataKey::WithdrawalCooldown => Some(Value::Number(self.withdrawal_cooldown)),
            DataKey::ProposedAdmin => party(self.proposed_admin),
            DataKey::Version => Some(Value::Number(self.version)),
            _ => None,
        }
    }

    /// The same with `value` under a key of the contract.
    pub open spec fn with_entry(self, key: DataKey, value: Value) -> Config {
        match (key, value) {
            (DataKey::Admin, Value::Party(a)) => Config { admin: Some(a), ..self },
            (DataKey::Paused, Value::Flag(paused)) => Config { paused, ..self },
            (DataKey::WithdrawalCooldown, Value::Number(n)) => Config {
                withdrawal_cooldown: n,
                ..self
            },
            (DataKey::ProposedAdmin, Value::Party(a)) => Config {
                proposed_admin: Some(a),
                ..self
            },
            (DataKey::Version, Value::Number(n)) => Config { version: n, ..self },
            _ => self,
        }
    }
}

impl Pool {
    /// What stands under a key of the pool.
    pub open spec fn entry(self, key: DataKey) -> Option<Value> {
        match key {
            DataKey::MaxPoolSize(_) => Some(Value::Amount(self.max_pool_size)),
            DataKey::TotalShares(_) => Some(Value::Amount(self.total_shares)),
            DataKey::TotalDeposits(_) => Some(Value::Amount(self.total_deposits)),
            DataKey::TotalManagedAssets(_) => Some(Value::Amount(self.total_managed_assets)),
            DataKey::LoanManager(_) => party(self.loan_manager),
            DataKey::DepositorCount(_) => Some(Value::Number(self.depositor_count)),
            _ => None,
        }
    }

    /// The same with `value` under a key of the pool.
    pub open spec fn with_entry(self, key: DataKey, value: Value) -> Pool {
        match (key, value) {
            (DataKey::MaxPoolSize(_), Value::Amount(n)) => Pool { max_pool_size: n, ..self },
            (DataKey::TotalShares(_), Value::Amount(n)) => Pool { total_shares: n, ..self },
            (DataKey::TotalDeposits(_), Value::Amount(n)) => Pool { total_deposits: n, ..self },
            (DataKey::TotalManagedAssets(_), Value::Amount(n)) => Pool {
                total_managed_assets: n,
                ..self
            },
            (DataKey::LoanManager(_), Value::Party(a)) => Pool { loan_manager: Some(a), ..self },
            (DataKey::DepositorCount(_), Value::Number(n)) => Pool { depositor_count: n, ..self },
            _ => self,
        }
    }
}

impl Position {
    /// What stands under a key of the holding.
    pub open spec fn entry(self, key: DataKey) -> Option<Value> {
        match key {
            DataKey::Shares(_, _) => Some(Value::Amount(self.shares)),
            DataKey::DepositTimestamp(_, _) => match self.deposit_ledger {
                Some(ledger) => Some(Value::Number(ledger)),
                None => None,
            },
            _ => None,
        }
    }

    /// The same with `value` under a key of the holding.
    pub open spec fn with_entry(self, key: DataKey, value: Value) -> Position {
        match (key, value) {
            (DataKey::Shares(_, _), Value::Amount(n)) => Position { shares: n, ..self },
            (DataKey::DepositTimestamp(_, _), Value::Number(n)) => Position {
                deposit_ledger: Some(n),
                ..self
            },
            _ => self,
        }
    }
}

impl EnvView {
    /// What a call sees under `key`.
    pub open spec fn entry(self, key: DataKey) -> Option<Value> {
        match key.place() {
            Place::Contract => self.config.entry(key),
            Place::Pool(token) => self.pool(token).entry(key),
            Place::Position(h) => self.position(h).entry(key),
        }
    }

    /// The same with `value` under `key`.
    pub open spec fn with_entry(self, key: DataKey, value: Value) -> EnvView {
        match key.place() {
            Place::Contract => self.with_config(self.config.with_entry(key, value)),
            Place::Pool(token) => self.with_pool(token, self.pool(token).with_entry(key, value)),
            Place::Position(h) => self.with_position(h, self.position(h).with_entry(key, value)),
        }
    }

    /// After an entry was written.
    pub open spec fn stored(self, key: DataKey, value: Value) -> EnvView {
        self.with_entry(key, value).storing(key, value)
    }
}

impl Env {
    /// Takes up an entry as it was found in storage. Says whether the key has a use for the value;
    /// where it has none, nothing is taken up.
    pub fn load(&mut self, key: DataKey, value: Value) -> (taken: bool)
        ensures
            taken == key.suits(value),
            final(self)@ == if key.suits(value) {
                old(self)@.with_entry(key, value)
            } else {
                old(self)@
            },
    {
        match (key, value) {
            (DataKey::Admin, Value::Party(a)) => {
                self.config.admin = Some(a);
            },
            (DataKey::Paused, Value::Flag(paused)) => {
                self.config.paused = paused;
            },
            (DataKey::WithdrawalCooldown, Value::Number(n)) => {
                self.config.withdrawal_cooldown = n;
            },
            (DataKey::MaxPoolSize(token), Value::Amount(n)) => {
                let pool = self.pool(&token);
                self.put_pool(token, Pool { max_pool_size: n, ..pool });
            },
            (DataKey::TotalShares(token), Value::Amount(n)) => {
                let pool = self.pool(&token);
                self.put_pool(token, Pool { total_shares: n, ..pool });
            },
            (DataKey::Shares(provider, token), Value::Amount(n)) => {
                let h = Holding { provider, token };
                let position = self.position(&h);
                self.put_position(h, Position { shares: n, ..position });
            },
            (DataKey::DepositTimestamp(provider, token), Value::Number(n)) => {
                let h = Holding { provider, token };
                let position = self.position(&h);
                self.put_position(h, Position { deposit_ledger: Some(n), ..position });
            },
            (DataKey::TotalDeposits(token), Value::Amount(n)) => {
                let pool = self.pool(&token);
                self.put_pool(token, Pool { total_deposits: n, ..pool });
            },
            (DataKey::TotalManagedAssets(token), Value::Amount(n)) => {
                let pool = self.pool(&token);
                self.put_pool(token, Pool { total_managed_assets: n, ..pool });
            },
            (DataKey::LoanManager(token), Value::Party(a)) => {
                let pool = self.pool(&token);
                self.put_pool(token, Pool { loan_manager: Some(a), ..pool });
            },
            (DataKey::DepositorCount(token), Value::Number(n)) => {
                let pool = self.pool(&token);
                self.put_pool(token, Pool { depositor_count: n, ..pool });
            },
            (DataKey::ProposedAdmin, Value::Party(a)) => {
                self.config.proposed_admin = Some(a);
            },
            (DataKey::Version, Value::Number(n)) => {
                self.config.version = n;
            },
            _ => {
                return false;
            },
        }
        true
    }

    /// Writes an entry, here and in the ledger.
    pub fn store(&mut self, key: DataKey, value: Value)
        requires
            key.suits(value),
        ensures
            final(self)@ == old(self)@.stored(key, value),
    {
        self.load(key, value);
        self.ask(Action::Store { key, value });
    }
}

/// An entry is read back as it was put, and putting it touches no other.
pub proof fn law_entries_are_read_back(v: EnvView, key: DataKey, value: Value, other: DataKey)
    requires
        key.suits(value),
    ensures
        v.with_entry(key, value).entry(key) == Some(value),
        other != key ==> v.with_entry(key, value).entry(other) == v.entry(other),
{
    match key.place() {
        Place::Contract => {
            lemma_config_entries(v.config, key, value, other);
        },
        Place::Pool(token) => {
            lemma_pool_entries(v.pool(token), key, value, other);
        },
        Place::Position(h) => {
            lemma_position_entries(v.position(h), key, value, other);
        },
    }
}

proof fn lemma_config_entries(config: Config, key: DataKey, value: Value, other: DataKey)
    requires
        key.place() is Contract,
        key.suits(value),
    ensures
        config.with_entry(key, value).entry(key) == Some(value),
        other != key ==> config.with_entry(key, value).entry(other) == config.entry(other),
{
}

proof fn lemma_pool_entries(pool: Pool, key: DataKey, value: Value, other: DataKey)
    requires
        key.place() is Pool,
        key.suits(value),
    ensures
        pool.with_entry(key, value).entry(key) == Some(value),
        other != key && other.place() == key.place() ==> pool.with_entry(key, value).entry(other)
            == pool.entry(other),
{
}

proof fn lemma_position_entries(position: Position, key: DataKey, value: Value, other: DataKey)
    requires
        key.place() is Position,
        key.suits(value),
    ensures
        position.with_entry(key, value).entry(key) == Some(value),
        other != key && other.place() == key.place() ==> position.with_entry(key, value).entry(
            other,
        ) == position.entry(other),
{
}

} // verus!
