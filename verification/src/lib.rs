//! A lazily filled, single-owner cache for prepared statements.
//!
//! A cache entry remembers the text of one query together with the handle
//! that the database driver returned the first time the query was prepared.
//! Later uses of the entry hand the remembered handle back without asking
//! the driver again.
//!
//! - `entry`: the cache entry, for any kind of handle and any driver.
//! - `history`: what holds of an entry over a whole run of uses.
//! - `stmt`: the entry for statements of a PostgreSQL connection.
//! - `params`: binding a struct of parameters to a query.
//! - `batch`: query text for inserting many rows with one statement.

pub mod batch;
pub mod entry;
pub mod history;
pub mod params;
pub mod stmt;

pub use entry::{CacheEntry, EntryView};
pub use params::Params;
pub use stmt::Stmt;
