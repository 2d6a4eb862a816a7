//! Symbols of the one table that a process shares.
//!
//! A program keeps a single [`GlobalTable`] for as long as it runs and hands
//! it to [`GlobalSymbol::new`] and [`GlobalSymbol::as_str`]. Because that
//! table is never dropped, the strings it resolves to live as long as the
//! process.

use crate::error::InternError;
use crate::error::ResolveError;
use crate::hasher::DeterministicHashBuilder;
use crate::hasher::HashPolicy;
use crate::shard::shard_wf;
use crate::symbol::spec_max_index;
use crate::symbol::Symbol;
use crate::table::intern_outcome;
use crate::table::resolve_outcome;
use crate::table::spec_route;
use crate::table::SymbolTable;
use crate::table::DEFAULT_N_SHARDS;
use vstd::prelude::*;

verus! {

/// The kind of table that a process shares: the default number of shards and
/// the default hash policy.
pub type GlobalTable = SymbolTable<DEFAULT_N_SHARDS, DeterministicHashBuilder>;

/// A symbol of the table that the process shares. It is compared, ordered and
/// hashed as the symbol inside it, and its view is that symbol's number.
#[derive(Debug, Copy, Clone, PartialEq, Eq, PartialOrd, Ord, Hash, Structural)]
pub struct GlobalSymbol(Symbol);

impl View for GlobalSymbol {
    type V = u32;

    closed spec fn view(&self) -> u32 {
        self.0@
    }
}

impl GlobalSymbol {
    /// The symbol inside.
    pub closed spec fn spec_symbol(self) -> Symbol {
        self.0
    }

    /// Takes `sym` for a symbol of the shared table.
    pub fn from_symbol(sym: Symbol) -> (global: GlobalSymbol)
        ensures
            global.spec_symbol() == sym,
            global@ == sym@,
    {
        GlobalSymbol(sym)
    }

    /// The symbol inside.
    pub fn symbol(self) -> (sym: Symbol)
        ensures
            sym == self.spec_symbol(),
            sym@ == self@,
    {
        self.0
    }

    /// Interns `s` into the shared table: [`SymbolTable::intern`], with the
    /// symbol it returns taken for a symbol of the shared table.
    pub fn new(table: &'static GlobalTable, s: &str) -> (r: Result<GlobalSymbol, InternError>)
        ensures
            exists|held: Seq<Seq<char>>| #[trigger]
                shard_wf(held, DEFAULT_N_SHARDS as nat) && intern_outcome(
                    held,
                    s@,
                    spec_route(DeterministicHashBuilder::spec_hash(s@), DEFAULT_N_SHARDS as nat),
                    DEFAULT_N_SHARDS as nat,
                    match r {
                        Ok(global) => Ok(global.spec_symbol()),
                        Err(e) => Err(e),
                    },
                ),
            match r {
                Ok(global) => {
                    &&& global@ != 0
                    &&& global.spec_symbol().spec_shard(DEFAULT_N_SHARDS as nat) == spec_route(
                        DeterministicHashBuilder::spec_hash(s@),
                        DEFAULT_N_SHARDS as nat,
                    )
                    &&& 1 <= global.spec_symbol().spec_local(DEFAULT_N_SHARDS as nat)
                        <= spec_max_index(DEFAULT_N_SHARDS as nat)
                },
                Err(_) => true,
            },
    {
        match table.intern(s) {
            Ok(sym) => Ok(GlobalSymbol(sym)),
            Err(e) => Err(e),
        }
    }

    /// The string that the symbol stands for in the shared table:
    /// [`SymbolTable::resolve`] of the symbol inside. The string lives as
    /// long as the process.
    pub fn as_str(&self, table: &'static GlobalTable) -> (r: Result<&'static str, ResolveError>)
        ensures
            exists|held: Seq<Seq<char>>| #[trigger]
                shard_wf(held, DEFAULT_N_SHARDS as nat) && resolve_outcome(
                    held,
                    self.spec_symbol(),
                    DEFAULT_N_SHARDS as nat,
                    match r {
                        Ok(string) => Ok(string@),
                        Err(e) => Err(e),
                    },
                ),
    {
        table.resolve(self.0)
    }

    /// A copy of the string that the symbol stands for in the shared table:
    /// what printing the symbol shows.
    pub fn to_string(&self, table: &'static GlobalTable) -> (r: Result<String, ResolveError>)
        ensures
            exists|held: Seq<Seq<char>>| #[trigger]
                shard_wf(held, DEFAULT_N_SHARDS as nat) && resolve_outcome(
                    held,
                    self.spec_symbol(),
                    DEFAULT_N_SHARDS as nat,
                    match r {
                        Ok(text) => Ok(text@),
                        Err(e) => Err(e),
                    },
                ),
    {
        match self.as_str(table) {
            Ok(s) => Ok(s.to_owned()),
            Err(e) => Err(e),
        }
    }
}

} // verus!
