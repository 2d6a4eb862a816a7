//! Why interning or resolving can fail.

use vstd::prelude::*;

verus! {

/// Why a string was not interned.
#[derive(Debug, Clone, Copy, PartialEq, Eq, Structural)]
pub enum InternError {
    /// The shard that the string belongs to is full: a symbol has no more
    /// positions. The table has too few shards for the strings it is given.
    /// The shard stays as it was, and strings that are in it still intern.
    CapacityExceeded,
    /// A thread panicked while it held the lock of the shard.
    LockPoisoned,
}

/// Why a symbol was not resolved.
#[derive(Debug, Clone, Copy, PartialEq, Eq, Structural)]
pub enum ResolveError {
    /// The table has made no such symbol: it names a shard or a position
    /// that the table does not have.
    UnknownSymbol,
    /// A thread panicked while it held the lock of the shard.
    LockPoisoned,
}

} // verus!
