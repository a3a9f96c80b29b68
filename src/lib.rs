//! A transactional store of processed blocks and account state over an embedded
//! SQL engine, and the state-backend reads that an execution engine makes of it.
pub mod keys;
pub mod model;
mod sqlite;
pub mod sql;
pub mod lookup;
pub mod store;
pub mod laws;

pub use keys::{Address, B256, U256};
pub use lookup::{Fetched, StoreError};
pub use sqlite::Database;
pub use store::{AccountChange, Block, StateDiff};
