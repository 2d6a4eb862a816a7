//! Symbols and their bit layout.
//!
//! A symbol is one non-zero 32-bit number. For a table of `n` shards its top
//! bits, as many as it takes to write `n - 1`, name the shard; the bits below
//! hold the position of the string in that shard, counted from 1. Read as a
//! number this is `shard * span + local`, where `span` is two to the number of
//! the lower bits.

use vstd::arithmetic::div_mod::lemma_basic_div;
use vstd::arithmetic::div_mod::lemma_div_by_self;
use vstd::arithmetic::div_mod::lemma_div_is_ordered;
use vstd::arithmetic::div_mod::lemma_fundamental_div_mod_converse;
use vstd::arithmetic::div_mod::lemma_small_mod;
use vstd::arithmetic::mul::lemma_mul_inequality;
use vstd::arithmetic::power2::lemma2_to64;
use vstd::arithmetic::power2::lemma_pow2_adds;
use vstd::arithmetic::power2::lemma_pow2_pos;
use vstd::arithmetic::power2::lemma_pow2_strictly_increases;
use vstd::arithmetic::power2::lemma_pow2_unfold;
use vstd::arithmetic::power2::pow2;
use vstd::bits::lemma_u32_low_bits_mask_is_mod;
use vstd::bits::lemma_u32_shl_is_mul;
use vstd::bits::lemma_u32_shr_is_div;
use vstd::bits::low_bits_mask;
use vstd::prelude::*;
use vstd::std_specs::bits::axiom_u32_leading_zeros;
use vstd::std_specs::bits::u32_leading_zeros;

verus! {

/// The largest number of shards a table may have.
pub const MAX_SHARDS: usize = 1024;

/// The number of bits it takes to write `x`: 0 for 0, 1 for 1, 2 for 2 and 3.
pub open spec fn bits_to_cover(x: nat) -> nat
    decreases x,
{
    if x == 0 {
        0
    } else {
        1 + bits_to_cover(x / 2)
    }
}

/// The number of top bits of a symbol that name the shard, in a table of `n`
/// shards: the fewest bits in which `n - 1` can be written.
pub open spec fn spec_shard_bits(n: nat) -> nat {
    bits_to_cover((n - 1) as nat)
}

/// The number of 32-bit values that share one shard number, in a table of `n`
/// shards.
pub open spec fn spec_index_span(n: nat) -> nat {
    pow2((32 - spec_shard_bits(n)) as nat)
}

/// The largest position, counted from 1, that a symbol can hold, in a table
/// of `n` shards. A shard can hold this many strings.
pub open spec fn spec_max_index(n: nat) -> nat {
    (spec_index_span(n) - 1) as nat
}

/// The number that stands for position `local`, counted from 1, of shard
/// `shard`, in a table of `n` shards.
pub open spec fn spec_pack(shard: nat, local: nat, n: nat) -> nat {
    shard * spec_index_span(n) + local
}

/// The number `x` lies between two neighbouring powers of two, which its
/// number of bits names.
pub proof fn lemma_bits_to_cover(x: nat)
    ensures
        x < pow2(bits_to_cover(x)),
        x > 0 ==> pow2((bits_to_cover(x) - 1) as nat) <= x,
    decreases x,
{
    lemma2_to64();
    if x > 0 {
        lemma_bits_to_cover(x / 2);
        lemma_pow2_unfold(bits_to_cover(x));
        if x / 2 > 0 {
            lemma_pow2_unfold((bits_to_cover(x) - 1) as nat);
        }
    }
}

/// A number that lies between the powers of two that `b` names takes `b` bits.
pub proof fn lemma_bits_to_cover_unique(x: nat, b: nat)
    requires
        x < pow2(b),
        b > 0 ==> pow2((b - 1) as nat) <= x,
    ensures
        bits_to_cover(x) == b,
{
    let c = bits_to_cover(x);
    lemma_bits_to_cover(x);
    lemma2_to64();
    if c < b {
        if c < b - 1 {
            lemma_pow2_strictly_increases(c, (b - 1) as nat);
        }
    } else if b < c {
        if b < c - 1 {
            lemma_pow2_strictly_increases(b, (c - 1) as nat);
        }
    }
}

/// The shard bits of every table size that is allowed: at most 10 of them,
/// and enough to tell `n` shards apart.
pub proof fn lemma_shard_bits(n: nat)
    requires
        1 <= n <= MAX_SHARDS,
    ensures
        spec_shard_bits(n) <= 10,
        n <= pow2(spec_shard_bits(n)),
        spec_index_span(n) * pow2(spec_shard_bits(n)) == 0x1_0000_0000,
        0x40_0000 <= spec_index_span(n) <= 0x1_0000_0000,
        spec_shard_bits(n) > 0 ==> spec_index_span(n) < 0x1_0000_0000,
        n * spec_index_span(n) <= 0x1_0000_0000,
{
    let x = (n - 1) as nat;
    let b = spec_shard_bits(n);
    lemma_bits_to_cover(x);
    lemma2_to64();
    if b > 10 {
        if b > 11 {
            lemma_pow2_strictly_increases(10, (b - 1) as nat);
        }
        assert(false);
    }
    lemma_pow2_adds((32 - b) as nat, b);
    lemma_pow2_pos((32 - b) as nat);
    if b < 10 {
        lemma_pow2_strictly_increases(22, (32 - b) as nat);
    }
    if b > 0 {
        lemma_pow2_strictly_increases((32 - b) as nat, 32);
    }
    lemma_mul_inequality(n as int, pow2(b) as int, spec_index_span(n) as int);
    assert(n * spec_index_span(n) <= pow2(b) * spec_index_span(n));
    assert(pow2(b) * spec_index_span(n) == spec_index_span(n) * pow2(b)) by (nonlinear_arith);
}

/// Shard and position can be read back from the number that packs them.
pub proof fn lemma_unpack(shard: nat, local: nat, n: nat)
    requires
        local < spec_index_span(n),
    ensures
        spec_pack(shard, local, n) / spec_index_span(n) == shard,
        spec_pack(shard, local, n) % spec_index_span(n) == local,
{
    let span = spec_index_span(n);
    lemma_pow2_pos((32 - spec_shard_bits(n)) as nat);
    lemma_fundamental_div_mod_converse(
        spec_pack(shard, local, n) as int,
        span as int,
        shard as int,
        local as int,
    );
}

/// For a number below 1024, 32 less its leading zeros is the number of bits
/// it takes to write it.
proof fn lemma_leading_zeros_count_bits(x: u32)
    requires
        x < 1024,
    ensures
        22 <= u32_leading_zeros(x) <= 32,
        32 - u32_leading_zeros(x) == bits_to_cover(x as nat),
{
    let zeros = u32_leading_zeros(x);
    axiom_u32_leading_zeros(x);
    if x != 0 {
        if zeros < 22 {
            let at: u32 = (31 - zeros) as u32;
            assert((x >> at) & 1u32 == 0u32) by (bit_vector)
                requires
                    x < 1024,
                    10 <= at < 32,
            ;
        }
        let bits: u32 = (32 - zeros) as u32;
        let low: u32 = (bits - 1) as u32;
        assert(x >> low != 0u32) by (bit_vector)
            requires
                (x >> low) & 1u32 != 0u32,
        ;
        lemma_u32_shr_is_div(x, bits);
        lemma_u32_shr_is_div(x, low);
        lemma_pow2_pos(bits as nat);
        lemma_pow2_pos(low as nat);
        if x >= pow2(bits as nat) {
            lemma_div_is_ordered(pow2(bits as nat) as int, x as int, pow2(bits as nat) as int);
            lemma_div_by_self(pow2(bits as nat) as int);
        }
        if x < pow2(low as nat) {
            lemma_basic_div(x as int, pow2(low as nat) as int);
        }
        lemma_bits_to_cover_unique(x as nat, bits as nat);
    }
}

/// The number of shard bits for a table of `n` shards.
pub fn shard_bits(n: usize) -> (bits: u32)
    requires
        1 <= n <= MAX_SHARDS,
    ensures
        bits == spec_shard_bits(n as nat),
        bits <= 10,
{
    let top: u32 = (n - 1) as u32;
    proof {
        lemma_leading_zeros_count_bits(top);
    }
    32 - top.leading_zeros()
}

/// The largest position, counted from 1, that a symbol of a table of `n`
/// shards can hold.
pub fn max_index(n: usize) -> (max: u32)
    requires
        1 <= n <= MAX_SHARDS,
    ensures
        max == spec_max_index(n as nat),
        max >= 1,
{
    let bits = shard_bits(n);
    proof {
        lemma_shard_bits(n as nat);
        lemma_max_shift(bits);
    }
    u32::MAX >> bits
}

proof fn lemma_max_shift(bits: u32)
    requires
        bits <= 10,
    ensures
        (u32::MAX >> bits) == pow2((32 - bits) as nat) - 1,
{
    lemma2_to64();
    lemma_u32_shr_is_div(u32::MAX, bits);
    lemma_pow2_adds((32 - bits) as nat, bits as nat);
    lemma_pow2_pos(bits as nat);
    lemma_pow2_pos((32 - bits) as nat);
    let p = pow2(bits as nat) as int;
    let q = pow2((32 - bits) as nat) as int;
    assert(q * p == 0x1_0000_0000);
    assert(u32::MAX as int == p * (q - 1) + (p - 1)) by (nonlinear_arith)
        requires
            q * p == 0x1_0000_0000,
            u32::MAX == 0xffff_ffff,
    ;
    lemma_fundamental_div_mod_converse(u32::MAX as int, p, q - 1, p - 1);
}

/// A handle for an interned string: small, copyable, and equal to another
/// handle of the same table exactly when both stand for the same string.
///
/// Its view is the one number that it holds, which is never zero. How the
/// number splits into shard and position depends on the number of shards of
/// the table that made it. Symbols are ordered by that number, which says
/// nothing about the strings.
#[derive(Debug, Copy, Clone, PartialEq, Eq, PartialOrd, Ord, Hash, Structural)]
pub struct Symbol(u32);

impl View for Symbol {
    type V = u32;

    closed spec fn view(&self) -> u32 {
        self.0
    }
}

impl Symbol {
    #[verifier::type_invariant]
    spec fn inv(self) -> bool {
        self.0 != 0
    }

    /// The shard that the symbol names, in a table of `n` shards.
    pub open spec fn spec_shard(self, n: nat) -> nat {
        self@ as nat / spec_index_span(n)
    }

    /// The position that the symbol holds, counted from 1, in a table of `n`
    /// shards.
    pub open spec fn spec_local(self, n: nat) -> nat {
        self@ as nat % spec_index_span(n)
    }

    /// The symbol that holds `raw`, unless `raw` is zero.
    pub fn new(raw: u32) -> (r: Option<Symbol>)
        ensures
            match r {
                Some(sym) => raw != 0 && sym@ == raw,
                None => raw == 0,
            },
    {
        if raw == 0 {
            None
        } else {
            Some(Symbol(raw))
        }
    }

    /// The number that the symbol holds.
    pub fn get(self) -> (raw: u32)
        ensures
            raw == self@,
            raw != 0,
    {
        proof {
            use_type_invariant(self);
        }
        self.0
    }

    /// The symbol for position `local`, counted from 1, of shard `shard`, in
    /// a table of `n` shards.
    pub fn pack(shard: usize, local: u32, n: usize) -> (sym: Symbol)
        requires
            1 <= n <= MAX_SHARDS,
            shard < n,
            1 <= local <= spec_max_index(n as nat),
        ensures
            sym@ == spec_pack(shard as nat, local as nat, n as nat),
            sym@ != 0,
    {
        let bits = shard_bits(n);
        if bits == 0 {
            proof {
                lemma_shard_bits(n as nat);
                lemma2_to64();
                let span = spec_index_span(n as nat);
                assert(shard as nat * span == 0) by (nonlinear_arith)
                    requires
                        shard == 0,
                ;
            }
            Symbol(local)
        } else {
            let shift: u32 = 32 - bits;
            let high: u32 = shard as u32;
            proof {
                lemma_shard_bits(n as nat);
                lemma2_to64();
                let span = spec_index_span(n as nat);
                lemma_mul_inequality(high as int + 1, n as int, span as int);
                assert((high + 1) * span == high * span + span) by (nonlinear_arith);
                assert(high * span + span <= 0x1_0000_0000);
                assert(span == pow2(shift as nat));
                assert(1u32 * span == span);
                lemma_u32_shl_is_mul(high, shift);
                lemma_u32_shl_is_mul(1u32, shift);
                let base: u32 = high << shift;
                let one: u32 = 1u32 << shift;
                assert(base == high * span);
                assert(one == span);
                assert((base | local) == base + local && (base | local) != 0u32) by (bit_vector)
                    requires
                        base == high << shift,
                        one == 1u32 << shift,
                        local < one,
                        local != 0u32,
                        shift < 32,
                ;
            }
            Symbol((high << shift) | local)
        }
    }

    /// The shard that the symbol names, in a table of `n` shards. It may be
    /// `n` or more if the symbol is not of such a table.
    pub fn shard_index(self, n: usize) -> (shard: usize)
        requires
            1 <= n <= MAX_SHARDS,
        ensures
            shard == self.spec_shard(n as nat),
    {
        let bits = shard_bits(n);
        if bits == 0 {
            proof {
                lemma2_to64();
                lemma_basic_div(self@ as int, 0x1_0000_0000);
            }
            0
        } else {
            proof {
                lemma_shard_bits(n as nat);
                lemma2_to64();
                let raw: u32 = self.0;
                let shift: u32 = (32 - bits) as u32;
                lemma_u32_shr_is_div(raw, shift);
                assert(raw >> shift < 1024) by (bit_vector)
                    requires
                        22 <= shift < 32,
                ;
            }
            (self.0 >> (32 - bits)) as usize
        }
    }

    /// The position that the symbol holds, counted from 1, in a table of `n`
    /// shards. It is 0 if the symbol is not of such a table and holds none.
    pub fn local_index(self, n: usize) -> (local: u32)
        requires
            1 <= n <= MAX_SHARDS,
        ensures
            local == self.spec_local(n as nat),
    {
        let max = max_index(n);
        proof {
            lemma_shard_bits(n as nat);
            lemma2_to64();
            let span = spec_index_span(n as nat);
            let raw: u32 = self.0;
            if span == 0x1_0000_0000 {
                assert(raw & max == raw) by (bit_vector)
                    requires
                        max == 0xffff_ffffu32,
                ;
                lemma_small_mod(self@ as nat, span);
            } else {
                let shift = (32 - spec_shard_bits(n as nat)) as nat;
                assert(low_bits_mask(shift) == max);
                lemma_u32_low_bits_mask_is_mod(raw, shift);
            }
        }
        self.0 & max
    }
}

} // verus!
