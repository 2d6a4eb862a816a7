//! The table as mathematics, and the laws that hold of it.
//!
//! A table of `n` shards is the sequence of what its shards hold. Interning
//! and resolving on this model are put together from the same steps that
//! [`SymbolTable::intern_in`](crate::table::SymbolTable::intern_in) and
//! [`SymbolTable::resolve_in`](crate::table::SymbolTable::resolve_in) take on
//! a locked shard, so what is proved here of every state of the model holds
//! of every call on a table, whatever other threads did before it.

use crate::hasher::HashPolicy;
use crate::shard::lemma_spec_intern;
use crate::shard::shard_wf;
use crate::shard::spec_intern;
use crate::symbol::lemma_shard_bits;
use crate::symbol::lemma_unpack;
use crate::symbol::spec_index_span;
use crate::symbol::spec_max_index;
use crate::symbol::spec_pack;
use crate::symbol::spec_shard_bits;
use crate::symbol::MAX_SHARDS;
use crate::table::spec_route;
use crate::table::spec_shard_intern;
use crate::table::spec_shard_resolve;
use vstd::arithmetic::div_mod::lemma_fundamental_div_mod;
use vstd::arithmetic::power2::lemma_pow2_pos;
use vstd::prelude::*;

verus! {

/// A table of `n` shards that holds nothing.
pub open spec fn model_empty(n: nat) -> Seq<Seq<Seq<char>>> {
    Seq::new(n, |i: int| Seq::<Seq<char>>::empty())
}

/// What a table of `n` shards with hash policy `S` may hold: in each shard no
/// string twice, no more strings than a symbol has positions for, and only
/// strings whose hash picks that shard.
pub open spec fn model_wf<S: HashPolicy>(table: Seq<Seq<Seq<char>>>, n: nat) -> bool {
    &&& 1 <= n <= MAX_SHARDS
    &&& table.len() == n
    &&& forall|i: int| 0 <= i < n ==> shard_wf(#[trigger] table[i], n)
    &&& forall|i: int, k: int|
        0 <= i < n && 0 <= k < table[i].len() ==> spec_route(
            S::spec_hash(#[trigger] table[i][k]),
            n,
        ) == i
}

/// Whether `later` holds what `earlier` holds, each string in its place, and
/// perhaps more: what any number of internings make of a table.
pub open spec fn model_extends(earlier: Seq<Seq<Seq<char>>>, later: Seq<Seq<Seq<char>>>) -> bool {
    &&& earlier.len() == later.len()
    &&& forall|i: int| 0 <= i < earlier.len() ==> (#[trigger] earlier[i]).is_prefix_of(later[i])
}

/// Interning `s` into `table`: the table afterwards, and the number of the
/// symbol, or none if the shard of `s` is full.
pub open spec fn model_intern<S: HashPolicy>(table: Seq<Seq<Seq<char>>>, s: Seq<char>, n: nat) -> (
    Seq<Seq<Seq<char>>>,
    Option<nat>,
) {
    let shard = spec_route(S::spec_hash(s), n);
    let (after, raw) = spec_shard_intern(table[shard as int], s, shard, n);
    (table.update(shard as int, after), raw)
}

/// The string that the number `raw` stands for in `table`, if it stands for
/// one.
pub open spec fn model_resolve(table: Seq<Seq<Seq<char>>>, raw: nat, n: nat) -> Option<Seq<char>> {
    let shard = raw / spec_index_span(n);
    if shard < n {
        spec_shard_resolve(table[shard as int], raw, n)
    } else {
        None
    }
}

/// An empty table is a table.
pub proof fn law_empty_is_wf<S: HashPolicy>(n: nat)
    requires
        1 <= n <= MAX_SHARDS,
    ensures
        model_wf::<S>(model_empty(n), n),
{
    lemma_shard_bits(n);
}

/// Interning keeps a table a table, and keeps every string where it was.
pub proof fn law_intern_extends<S: HashPolicy>(table: Seq<Seq<Seq<char>>>, s: Seq<char>, n: nat)
    requires
        model_wf::<S>(table, n),
    ensures
        model_wf::<S>(model_intern::<S>(table, s, n).0, n),
        model_extends(table, model_intern::<S>(table, s, n).0),
{
    let shard = spec_route(S::spec_hash(s), n) as int;
    let after = model_intern::<S>(table, s, n).0;
    lemma_spec_intern(table[shard], s, spec_max_index(n));
    assert forall|i: int, k: int| 0 <= i < n && 0 <= k < after[i].len() implies spec_route(
        S::spec_hash(#[trigger] after[i][k]),
        n,
    ) == i by {
        if i == shard {
            assert(after[i].contains(after[i][k]));
            if table[i].contains(after[i][k]) {
                let j = choose|j: int| 0 <= j < table[i].len() && table[i][j] == after[i][k];
                assert(spec_route(S::spec_hash(table[i][j]), n) == i);
            }
        } else {
            assert(after[i] == table[i]);
        }
    }
    assert forall|i: int| 0 <= i < n implies shard_wf(#[trigger] after[i], n) by {
        if i != shard {
            assert(after[i] == table[i]);
        }
    }
    assert forall|i: int| 0 <= i < table.len() implies (#[trigger] table[i]).is_prefix_of(
        after[i],
    ) by {
        if i != shard {
            assert(after[i] == table[i]);
        }
    }
}

/// A table extends itself, and extending twice is extending.
pub proof fn law_extends_is_preorder(
    a: Seq<Seq<Seq<char>>>,
    b: Seq<Seq<Seq<char>>>,
    c: Seq<Seq<Seq<char>>>,
)
    ensures
        model_extends(a, a),
        model_extends(a, b) && model_extends(b, c) ==> model_extends(a, c),
{
    if model_extends(a, b) && model_extends(b, c) {
        assert forall|i: int| 0 <= i < a.len() implies (#[trigger] a[i]).is_prefix_of(c[i]) by {
            assert(a[i].is_prefix_of(b[i]));
            assert(b[i].is_prefix_of(c[i]));
        }
    }
}

/// Resolving the symbol that interning a string gave returns that string.
/// The symbol's number is not zero and fits in 32 bits.
pub proof fn law_resolve_after_intern<S: HashPolicy>(
    table: Seq<Seq<Seq<char>>>,
    s: Seq<char>,
    n: nat,
)
    requires
        model_wf::<S>(table, n),
        model_intern::<S>(table, s, n).1.is_some(),
    ensures
        ({
            let (after, raw) = model_intern::<S>(table, s, n);
            &&& model_resolve(after, raw.unwrap(), n) == Some(s)
            &&& 0 < raw.unwrap() <= u32::MAX
        }),
{
    let shard = spec_route(S::spec_hash(s), n);
    let (after, at) = spec_intern(table[shard as int], s, spec_max_index(n));
    lemma_spec_intern(table[shard as int], s, spec_max_index(n));
    lemma_shard_bits(n);
    let local = (at.unwrap() + 1) as nat;
    lemma_unpack(shard, local, n);
    lemma_pack_fits(shard, local, n);
}

/// The number that packs a shard and a position of a table fits in 32 bits.
pub proof fn lemma_pack_fits(shard: nat, local: nat, n: nat)
    requires
        1 <= n <= MAX_SHARDS,
        shard < n,
        local <= spec_max_index(n),
    ensures
        spec_pack(shard, local, n) <= u32::MAX,
{
    lemma_shard_bits(n);
    let span = spec_index_span(n);
    assert((shard + 1) * span <= n * span) by (nonlinear_arith)
        requires
            shard + 1 <= n,
    ;
    assert((shard + 1) * span == shard * span + span) by (nonlinear_arith);
}

/// Two internings give the same symbol exactly when they intern the same
/// string, whatever was interned between them.
pub proof fn law_intern_consistent<S: HashPolicy>(
    table: Seq<Seq<Seq<char>>>,
    s1: Seq<char>,
    between: Seq<Seq<Seq<char>>>,
    s2: Seq<char>,
    n: nat,
)
    requires
        model_wf::<S>(table, n),
        model_wf::<S>(between, n),
        model_extends(model_intern::<S>(table, s1, n).0, between),
        model_intern::<S>(table, s1, n).1.is_some(),
        model_intern::<S>(between, s2, n).1.is_some(),
    ensures
        model_intern::<S>(table, s1, n).1 == model_intern::<S>(between, s2, n).1 <==> s1 == s2,
{
    let shard1 = spec_route(S::spec_hash(s1), n);
    let shard2 = spec_route(S::spec_hash(s2), n);
    let max = spec_max_index(n);
    let (after1, at1) = spec_intern(table[shard1 as int], s1, max);
    let (after2, at2) = spec_intern(between[shard2 as int], s2, max);
    let first = model_intern::<S>(table, s1, n).0;
    lemma_spec_intern(table[shard1 as int], s1, max);
    lemma_spec_intern(between[shard2 as int], s2, max);
    lemma_shard_bits(n);
    let pos1 = at1.unwrap();
    let pos2 = at2.unwrap();
    lemma_unpack(shard1, (pos1 + 1) as nat, n);
    lemma_unpack(shard2, (pos2 + 1) as nat, n);
    assert(first[shard1 as int] == after1);
    assert(first[shard1 as int].is_prefix_of(between[shard1 as int]));
    assert(between[shard1 as int][pos1] == s1);
    if s1 == s2 {
        assert(between[shard2 as int].contains(s2));
        assert(after2 == between[shard2 as int]);
        assert(pos1 == pos2);
    }
    if model_intern::<S>(table, s1, n).1 == model_intern::<S>(between, s2, n).1 {
        assert(shard1 == shard2);
        assert(pos1 == pos2);
        assert(between[shard2 as int].is_prefix_of(after2));
        assert(after2[pos2] == between[shard2 as int][pos2]);
    }
}

/// A symbol keeps resolving to the same string, whatever is interned later.
pub proof fn law_resolve_stable(
    earlier: Seq<Seq<Seq<char>>>,
    later: Seq<Seq<Seq<char>>>,
    raw: nat,
    n: nat,
)
    requires
        earlier.len() == n,
        model_extends(earlier, later),
        model_resolve(earlier, raw, n).is_some(),
    ensures
        model_resolve(later, raw, n) == model_resolve(earlier, raw, n),
{
    lemma_pow2_pos((32 - spec_shard_bits(n)) as nat);
    let shard = (raw / spec_index_span(n)) as int;
    assert(earlier[shard].is_prefix_of(later[shard]));
}

/// Interning fails exactly when the string is new to its shard and the shard
/// holds as many strings as a symbol has positions for. The table is then as
/// it was.
pub proof fn law_capacity<S: HashPolicy>(table: Seq<Seq<Seq<char>>>, s: Seq<char>, n: nat)
    requires
        model_wf::<S>(table, n),
    ensures
        ({
            let shard = table[spec_route(S::spec_hash(s), n) as int];
            model_intern::<S>(table, s, n).1.is_none() <==> !shard.contains(s) && shard.len()
                == spec_max_index(n)
        }),
        model_intern::<S>(table, s, n).1.is_none() ==> model_intern::<S>(table, s, n).0 == table,
{
    let shard = spec_route(S::spec_hash(s), n) as int;
    lemma_spec_intern(table[shard], s, spec_max_index(n));
    if model_intern::<S>(table, s, n).1.is_none() {
        assert(model_intern::<S>(table, s, n).0 =~= table);
    }
}

/// Interning the string that a symbol resolves to gives that symbol back and
/// changes nothing: a symbol can be written out as its string and read back
/// by interning.
pub proof fn law_intern_resolved<S: HashPolicy>(table: Seq<Seq<Seq<char>>>, raw: nat, n: nat)
    requires
        model_wf::<S>(table, n),
        model_resolve(table, raw, n).is_some(),
    ensures
        model_intern::<S>(table, model_resolve(table, raw, n).unwrap(), n) == (table, Some(raw)),
{
    lemma_shard_bits(n);
    let span = spec_index_span(n);
    let shard = raw / span;
    let local = raw % span;
    let s = model_resolve(table, raw, n).unwrap();
    let strs = table[shard as int];
    assert(strs[local - 1] == s);
    assert(spec_route(S::spec_hash(strs[local - 1]), n) == shard);
    assert(strs.contains(s));
    assert(strs.index_of(s) == local - 1);
    lemma_fundamental_div_mod(raw as int, span as int);
    assert(span * shard == shard * span) by (nonlinear_arith);
    assert(model_intern::<S>(table, s, n).0 =~= table);
}

} // verus!
