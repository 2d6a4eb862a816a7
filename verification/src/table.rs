//! The sharded table.
//!
//! A string's hash picks its shard, the shard gives the string a position,
//! and shard and position together make the symbol. Each shard has a lock of
//! its own; interning and resolving hold one lock, for one lookup.
//!
//! What a shard holds at the moment of a call is known only under its lock.
//! So [`SymbolTable::intern`] and [`SymbolTable::resolve`] state what holds
//! of every outcome, and [`SymbolTable::intern_in`] and
//! [`SymbolTable::resolve_in`], which do the work on the locked shard, state
//! the outcome exactly.

use crate::error::InternError;
use crate::error::ResolveError;
use crate::hasher::hash_one;
use crate::hasher::DeterministicHashBuilder;
use crate::hasher::HashPolicy;
use crate::shard::shard_wf;
use crate::shard::spec_intern;
use crate::shard::Shard;
use crate::symbol::lemma_shard_bits;
use crate::symbol::lemma_unpack;
use crate::symbol::spec_index_span;
use crate::symbol::spec_max_index;
use crate::symbol::spec_pack;
use crate::symbol::Symbol;
use crate::symbol::MAX_SHARDS;
use crossbeam_utils::CachePadded;
use std::sync::Mutex;
use std::ops::Deref;
use std::ops::DerefMut;
use std::sync::MutexGuard;
use std::sync::PoisonError;
use vstd::prelude::*;

verus! {

/// The number of shards of a table made by [`SymbolTable::new`].
pub const DEFAULT_N_SHARDS: usize = 16;

/// The shard that a string with hash `hash` belongs to, in a table of `n`
/// shards.
pub open spec fn spec_route(hash: u64, n: nat) -> nat {
    hash as nat % n
}

/// Interning `s` into shard number `shard` of a table of `n` shards, when the
/// shard holds `strs`: the strings it holds afterwards, and the number of the
/// symbol, or none if `s` is new and the shard is full.
pub open spec fn spec_shard_intern(strs: Seq<Seq<char>>, s: Seq<char>, shard: nat, n: nat) -> (
    Seq<Seq<char>>,
    Option<nat>,
) {
    let (after, at) = spec_intern(strs, s, spec_max_index(n));
    (
        after,
        match at {
            Some(i) => Some(spec_pack(shard, (i + 1) as nat, n)),
            None => None,
        },
    )
}

/// The string that the number `raw` stands for in a shard that holds `strs`,
/// in a table of `n` shards: the one at the position that `raw` holds, if the
/// shard has it.
pub open spec fn spec_shard_resolve(strs: Seq<Seq<char>>, raw: nat, n: nat) -> Option<Seq<char>> {
    let local = raw % spec_index_span(n);
    if 1 <= local <= strs.len() {
        Some(strs[local - 1])
    } else {
        None
    }
}

/// Whether `r` is what interning `s` into shard number `shard` returns when
/// the shard holds `held`. A poisoned lock can be met in any state.
pub open spec fn intern_outcome(
    held: Seq<Seq<char>>,
    s: Seq<char>,
    shard: nat,
    n: nat,
    r: Result<Symbol, InternError>,
) -> bool {
    match r {
        Ok(sym) => spec_shard_intern(held, s, shard, n).1 == Some(sym@ as nat),
        Err(InternError::CapacityExceeded) => spec_shard_intern(held, s, shard, n).1.is_none(),
        Err(InternError::LockPoisoned) => true,
    }
}

/// Whether `r`, a string as its characters or an error, is what resolving
/// `sym` returns when the shard that it names holds `held`. A symbol that
/// names no shard of the table, or no position, is unknown in any state, and
/// its lock is not even taken.
pub open spec fn resolve_outcome(
    held: Seq<Seq<char>>,
    sym: Symbol,
    n: nat,
    r: Result<Seq<char>, ResolveError>,
) -> bool {
    match r {
        Ok(string) => sym.spec_shard(n) < n && spec_shard_resolve(held, sym@ as nat, n) == Some(
            string,
        ),
        Err(ResolveError::UnknownSymbol) => sym.spec_shard(n) >= n || spec_shard_resolve(
            held,
            sym@ as nat,
            n,
        ).is_none(),
        Err(ResolveError::LockPoisoned) => sym.spec_shard(n) < n && sym.spec_local(n) != 0,
    }
}

/// `Mutex` of std. Nothing of what it holds is visible.
#[verifier::external_type_specification]
#[verifier::external_body]
#[verifier::reject_recursive_types(T)]
pub struct ExMutex<T: ?Sized>(Mutex<T>);

/// `MutexGuard` of std: the right to what a lock holds, until it is dropped.
#[verifier::external_type_specification]
#[verifier::external_body]
#[verifier::reject_recursive_types(T)]
pub struct ExMutexGuard<'a, T: ?Sized + 'a>(MutexGuard<'a, T>);

/// `CachePadded` of crossbeam: a value with a cache line to itself, so that
/// the locks of two shards never share one.
#[verifier::external_type_specification]
#[verifier::external_body]
#[verifier::reject_recursive_types(T)]
pub struct ExCachePadded<T>(CachePadded<T>);

/// `PoisonError` of std: the error of a lock that a panicking thread held.
#[verifier::external_type_specification]
#[verifier::external_body]
#[verifier::reject_recursive_types(T)]
pub struct ExPoisonError<T>(PoisonError<T>);

/// `CachePadded::new` of crossbeam: the value, padded to a cache line of its
/// own.
pub assume_specification<T>[ CachePadded::<T>::new ](t: T) -> (padded: CachePadded<T>);

/// `Deref` of crossbeam's `CachePadded`: the value inside.
pub assume_specification<'a, T>[ <CachePadded<T> as Deref>::deref ](
    padded: &'a CachePadded<T>,
) -> (inner: &'a T);

/// `Mutex::new` of std: a lock around the value.
pub assume_specification<T>[ Mutex::<T>::new ](t: T) -> (lock: Mutex<T>);

/// `Mutex::lock` of std: waits for the lock and returns its guard, or an
/// error if a thread panicked while it held the lock. Nothing is said of what
/// the lock holds: that is whatever the last holder left.
pub assume_specification<'a, T: ?Sized>[ Mutex::<T>::lock ](lock: &'a Mutex<T>) -> (r: Result<
    MutexGuard<'a, T>,
    PoisonError<MutexGuard<'a, T>>,
>);

/// `Deref` of a guard of std: the shard that the lock holds.
#[verifier::external_body]
fn guard_ref<'a, 'b, const N: usize, S: HashPolicy>(
    guard: &'a MutexGuard<'b, Shard<N, S>>,
) -> (shard: &'a Shard<N, S>) {
    guard.deref()
}

/// `DerefMut` of a guard of std: the shard that the lock holds, to change it.
#[verifier::external_body]
fn guard_mut<'a, 'b, const N: usize, S: HashPolicy>(
    guard: &'a mut MutexGuard<'b, Shard<N, S>>,
) -> (shard: &'a mut Shard<N, S>) {
    guard.deref_mut()
}

/// The shard that a string with hash `hash` belongs to, in a table of `n`
/// shards.
pub fn route(hash: u64, n: usize) -> (shard: usize)
    requires
        1 <= n <= MAX_SHARDS,
    ensures
        shard == spec_route(hash, n as nat),
        shard < n,
{
    (hash % (n as u64)) as usize
}

/// A table of `N` shards, from 1 to 1024 of them, that interns strings with
/// the hash policy `S`.
///
/// Interning and resolving take `&self`: a table can be shared by threads.
///
/// Every string is copied once, into an allocation of its own that is never
/// moved, changed or given back, not even when the table is dropped. That is
/// why a resolved string stays valid after the lock of its shard is released.
#[verifier::reject_recursive_types(N)]
#[verifier::reject_recursive_types(S)]
pub struct SymbolTable<const N: usize, S: HashPolicy> {
    build_hasher: S,
    shards: Vec<CachePadded<Mutex<Shard<N, S>>>>,
}

impl SymbolTable<DEFAULT_N_SHARDS, DeterministicHashBuilder> {
    /// An empty table with the default number of shards and the default hash
    /// policy.
    pub fn new() -> (table: Self)
        ensures
            table.spec_shard_count() == DEFAULT_N_SHARDS,
            table.spec_policy() == DeterministicHashBuilder,
    {
        Self::with_hasher(DeterministicHashBuilder)
    }
}

impl Default for SymbolTable<DEFAULT_N_SHARDS, DeterministicHashBuilder> {
    fn default() -> Self {
        Self::new()
    }
}

impl<const N: usize, S: HashPolicy> SymbolTable<N, S> {
    #[verifier::type_invariant]
    spec fn inv(self) -> bool {
        &&& 1 <= N <= MAX_SHARDS
        &&& self.shards@.len() == N
    }

    /// The number of shards that the table owns.
    pub closed spec fn spec_shard_count(&self) -> nat {
        self.shards@.len()
    }

    /// The hash policy that the table owns and hashes every string with.
    pub closed spec fn spec_policy(&self) -> S {
        self.build_hasher
    }

    /// An empty table that hashes with `build_hasher`: it owns `N` shards,
    /// each made empty and put behind a lock of its own, and the policy given.
    pub fn with_hasher(build_hasher: S) -> (table: Self)
        requires
            1 <= N <= MAX_SHARDS,
        ensures
            table.spec_shard_count() == N,
            table.spec_policy() == build_hasher,
    {
        let mut shards = Vec::with_capacity(N);
        let mut i: usize = 0;
        while i < N
            invariant
                1 <= N <= MAX_SHARDS,
                i <= N,
                shards@.len() == i,
            decreases N - i,
        {
            shards.push(CachePadded::new(Mutex::new(Shard::new())));
            i += 1;
        }
        SymbolTable { build_hasher, shards }
    }

    /// Interns `string` and returns its symbol.
    ///
    /// The string goes to the shard that its hash picks. Interning a string
    /// that the table has returns the symbol it got before; a new string gets
    /// a symbol that no other string of the table has. Which of the two
    /// happens depends on what the shard holds when its lock is taken:
    /// [`Self::intern_in`] says what is returned for each state of the shard.
    ///
    /// So the outcome is that of `intern_in` on some state that the shard may
    /// be in. Whatever the state, the symbol is never zero, names the shard
    /// that the hash picks, and holds a position that the table's symbols
    /// have room for.
    pub fn intern(&self, string: &str) -> (r: Result<Symbol, InternError>)
        ensures
            exists|held: Seq<Seq<char>>| #[trigger]
                shard_wf(held, N as nat) && intern_outcome(
                    held,
                    string@,
                    spec_route(S::spec_hash(string@), N as nat),
                    N as nat,
                    r,
                ),
            match r {
                Ok(sym) => {
                    &&& sym@ != 0
                    &&& sym.spec_shard(N as nat) == spec_route(S::spec_hash(string@), N as nat)
                    &&& 1 <= sym.spec_local(N as nat) <= spec_max_index(N as nat)
                },
                Err(_) => true,
            },
    {
        proof {
            use_type_invariant(self);
            lemma_shard_bits(N as nat);
        }
        let hash = hash_one(&self.build_hasher, string);
        let shard_i = route(hash, N);
        match self.shards[shard_i].lock() {
            Ok(mut guard) => {
                let shard = guard_mut(&mut guard);
                let ghost before = shard@;
                let r = Self::intern_in(shard, shard_i, hash, string, &self.build_hasher);
                proof {
                    assert(shard_wf(before, N as nat));
                    if let Ok(sym) = r {
                        let at = spec_intern(before, string@, spec_max_index(N as nat)).1.unwrap();
                        assert(0 <= at < spec_max_index(N as nat));
                        lemma_unpack(shard_i as nat, (at + 1) as nat, N as nat);
                    }
                }
                r
            },
            Err(_) => {
                proof {
                    assert(shard_wf(Seq::<Seq<char>>::empty(), N as nat));
                }
                Err(InternError::LockPoisoned)
            },
        }
    }

    /// Resolves `sym` to the string that it stands for. The string lives as
    /// long as the table and does not change.
    ///
    /// A symbol that names no shard of the table, or no position, is unknown.
    /// Whether the shard has the position depends on what it holds when its
    /// lock is taken: [`Self::resolve_in`] says what is returned for each
    /// state of the shard.
    /// So the outcome is that of `resolve_in` on some state that the shard
    /// may be in.
    pub fn resolve(&self, sym: Symbol) -> (r: Result<&str, ResolveError>)
        ensures
            exists|held: Seq<Seq<char>>| #[trigger]
                shard_wf(held, N as nat) && resolve_outcome(
                    held,
                    sym,
                    N as nat,
                    match r {
                        Ok(string) => Ok(string@),
                        Err(e) => Err(e),
                    },
                ),
            sym.spec_shard(N as nat) >= N || sym.spec_local(N as nat) == 0 ==> r == Err::<
                &str,
                ResolveError,
            >(ResolveError::UnknownSymbol),
    {
        proof {
            use_type_invariant(self);
            lemma_shard_bits(N as nat);
            assert(shard_wf(Seq::<Seq<char>>::empty(), N as nat));
        }
        let shard_i = sym.shard_index(N);
        if shard_i >= N || sym.local_index(N) == 0 {
            return Err(ResolveError::UnknownSymbol);
        }
        match self.shards[shard_i].lock() {
            Ok(guard) => {
                let shard = guard_ref(&guard);
                let found = Self::resolve_in(shard, sym);
                proof {
                    assert(shard_wf(shard@, N as nat));
                }
                match found {
                    Some(string) => Ok(string),
                    None => Err(ResolveError::UnknownSymbol),
                }
            },
            Err(_) => Err(ResolveError::LockPoisoned),
        }
    }

    /// Interns `string`, whose hash is `hash`, into `shard`, which is shard
    /// number `shard_i` of a table of `N` shards.
    ///
    /// A string that is in the shard gets the symbol of its position, and the
    /// shard stays as it is. A new string is put at the end and gets the
    /// symbol of that position; if the shard is full it stays as it is and
    /// the error is `CapacityExceeded`.
    pub fn intern_in(
        shard: &mut Shard<N, S>,
        shard_i: usize,
        hash: u64,
        string: &str,
        policy: &S,
    ) -> (r: Result<Symbol, InternError>)
        requires
            shard_i < N,
            hash == S::spec_hash(string@),
        ensures
            shard_wf(old(shard)@, N as nat),
            shard_wf(final(shard)@, N as nat),
            final(shard)@ == spec_shard_intern(old(shard)@, string@, shard_i as nat, N as nat).0,
            match r {
                Ok(sym) => sym@ != 0 && spec_shard_intern(
                    old(shard)@,
                    string@,
                    shard_i as nat,
                    N as nat,
                ).1 == Some(sym@ as nat),
                Err(e) => e == InternError::CapacityExceeded && spec_shard_intern(
                    old(shard)@,
                    string@,
                    shard_i as nat,
                    N as nat,
                ).1.is_none(),
            },
    {
        match shard.intern(hash, string, policy) {
            Some(at) => {
                proof {
                    lemma_shard_bits(N as nat);
                }
                Ok(Symbol::pack(shard_i, at + 1, N))
            },
            None => Err(InternError::CapacityExceeded),
        }
    }

    /// The string that `sym` stands for in `shard`: the one at the position
    /// that `sym` holds, if the shard has it.
    pub fn resolve_in(shard: &Shard<N, S>, sym: Symbol) -> (r: Option<&'static str>)
        ensures
            shard_wf(shard@, N as nat),
            match r {
                Some(string) => spec_shard_resolve(shard@, sym@ as nat, N as nat) == Some(string@),
                None => spec_shard_resolve(shard@, sym@ as nat, N as nat).is_none(),
            },
    {
        let len = shard.len();
        let local = sym.local_index(N);
        if local == 0 {
            None
        } else {
            shard.get(local - 1)
        }
    }
}

} // verus!
