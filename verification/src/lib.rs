//! A sharded string interner.
//!
//! A [`SymbolTable`] maps equal strings to equal [`Symbol`]s and resolves a
//! symbol back to the string it stands for. The table is split into shards,
//! each behind its own lock, so that threads which intern different strings
//! rarely wait for each other.
//!
//! - [`symbol`]: symbols and how shard and position share their 32 bits.
//! - [`hasher`]: hash policies, and the default one.
//! - [`index`]: the hash index of a shard.
//! - [`shard`]: one shard, a growing list of strings without repeats.
//! - [`table`]: the table of locked shards.
//! - [`global`]: symbols of the one table that a process shares.
//! - [`model`]: the table as mathematics, and the laws proved of it.
//! - [`error`]: why interning or resolving can fail.

pub mod error;
pub mod global;
pub mod hasher;
pub mod index;
pub mod model;
pub mod shard;
pub mod symbol;
pub mod table;

pub use error::InternError;
pub use error::ResolveError;
pub use global::GlobalSymbol;
pub use global::GlobalTable;
pub use hasher::hash_one;
pub use hasher::DeterministicHashBuilder;
pub use hasher::HashPolicy;
pub use shard::Shard;
pub use symbol::Symbol;
pub use table::SymbolTable;
pub use table::DEFAULT_N_SHARDS;
