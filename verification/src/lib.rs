//! A share-based (LP-token) liquidity pool: the rules by which deposits, redemptions and realised
//! yield move the accounting of a pool that serves any number of tokens.
#![allow(unused_imports)]

pub mod accounts;
pub mod address;
pub mod admin;
pub mod checks;
pub mod data_key;
pub mod entries;
pub mod env;
pub mod error;
pub mod laws;
pub mod liquidity;
pub mod mandates;
pub mod math;
pub mod pool;
pub mod queries;
pub mod rules;
pub mod steps;
pub mod storage;
pub mod table;
pub mod tally;
pub mod terms;

pub use address::{Address, AddressKind, Holding};
pub use data_key::{DataKey, Value};
pub use env::{Action, Config, Env, EnvView, Event, Pool, Position, TtlExtension};
pub use error::PoolError;
pub use pool::LendingPool;
pub use queries::PoolStats;
pub use table::{Key, Table};
