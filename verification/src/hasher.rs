//! Hash policies: how a string becomes the 64-bit value that picks its shard
//! and files it inside the shard.

use std::hash::BuildHasher;
use std::hash::Hash;
use std::hash::Hasher;
use vstd::prelude::*;

verus! {

/// A way to hash strings to 64 bits.
///
/// The hash is a function of the string alone: every value of the
/// implementing type gives the same string the same hash, at any time. The
/// table relies on this to find a string again in the shard it was filed in.
/// It does not rely on hashes being distinct: two strings with one hash are
/// told apart by comparing them.
pub trait HashPolicy {
    /// The hash that the policy gives to the string `s`.
    spec fn spec_hash(s: Seq<char>) -> u64;

    /// Hashes `s`.
    fn hash_str(&self, s: &str) -> (h: u64)
        ensures
            h == Self::spec_hash(s@),
    ;
}

/// The hash that `ahash` gives to a string when all four of its seeds are zero.
pub uninterp spec fn seeded_ahash(s: Seq<char>) -> u64;

/// Hashes `s` with `ahash`: `RandomState::with_seeds(0, 0, 0, 0)` builds the
/// hasher, the string is fed to it through `Hash`, and `finish` gives the
/// value. The seeds are fixed, so within one build of a program the value
/// depends on the characters of `s` and on nothing else; the contract claims
/// no more than that.
#[verifier::external_body]
fn seeded_hash(s: &str) -> (h: u64)
    ensures
        h == seeded_ahash(s@),
{
    let mut hasher = ahash::RandomState::with_seeds(0, 0, 0, 0).build_hasher();
    s.hash(&mut hasher);
    hasher.finish()
}

/// The default policy: `ahash` with fixed seeds, so that every run routes and
/// files strings alike. It is fast, and it is no defence against input chosen
/// to collide: such input slows the table down and never makes it wrong.
pub struct DeterministicHashBuilder;

impl Default for DeterministicHashBuilder {
    fn default() -> (r: Self)
        ensures
            r == DeterministicHashBuilder,
    {
        DeterministicHashBuilder
    }
}

/// `AHasher` of ahash: the state of one hashing.
#[verifier::external_type_specification]
#[verifier::external_body]
pub struct ExAHasher(ahash::AHasher);

impl BuildHasher for DeterministicHashBuilder {
    type Hasher = ahash::AHasher;

    /// `RandomState::with_seeds(0, 0, 0, 0)` of ahash and its `build_hasher`:
    /// a fresh hasher with the fixed seeds. Nothing is claimed of it.
    #[verifier::external_body]
    fn build_hasher(&self) -> (hasher: ahash::AHasher) {
        ahash::RandomState::with_seeds(0, 0, 0, 0).build_hasher()
    }
}

impl HashPolicy for DeterministicHashBuilder {
    open spec fn spec_hash(s: Seq<char>) -> u64 {
        seeded_ahash(s)
    }

    fn hash_str(&self, s: &str) -> (h: u64) {
        seeded_hash(s)
    }
}

/// Hashes `string` with the policy `build_hasher`.
pub fn hash_one<S: HashPolicy>(build_hasher: &S, string: &str) -> (h: u64)
    ensures
        h == S::spec_hash(string@),
{
    build_hasher.hash_str(string)
}

} // verus!
