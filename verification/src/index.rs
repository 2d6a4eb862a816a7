//! The hash index of a shard: a `hashbrown` map whose keys are positions in
//! the shard's list of strings. The map stores no string. It is searched with
//! a hash and a test on the position, and it files a new position under the
//! hash it is given.

use crate::hasher::HashPolicy;
use hashbrown::hash_map::RawEntryMut;
use vstd::prelude::*;

verus! {

/// A `hashbrown::HashMap<u32, (), ()>`: positions as keys, no values and no
/// hasher of its own.
#[verifier::external_body]
pub struct HashIndex {
    inner: hashbrown::HashMap<u32, (), ()>,
}

/// What an index holds: each position in it, with the hash it is filed under.
pub uninterp spec fn index_entries(index: HashIndex) -> Map<u32, u64>;

/// Whether the string at position `at` of `strs` is `string`.
pub(crate) fn entry_matches(strs: &Vec<&'static str>, at: u32, string: &str) -> (r: bool)
    requires
        (at as int) < strs@.len(),
    ensures
        r == (strs@[at as int]@ == string@),
{
    str_eq(strs[at as usize], string)
}

/// The hash of the string at position `at` of `strs`.
pub(crate) fn entry_hash<S: HashPolicy>(policy: &S, strs: &Vec<&'static str>, at: u32) -> (h: u64)
    requires
        (at as int) < strs@.len(),
    ensures
        h == S::spec_hash(strs@[at as int]@),
{
    policy.hash_str(strs[at as usize])
}

/// `==` of std on two string slices: they are equal when they hold the same
/// characters.
#[verifier::external_body]
pub(crate) fn str_eq(a: &str, b: &str) -> (r: bool)
    ensures
        r == (a@ == b@),
{
    a == b
}

/// `HashMap::default` of hashbrown: a map that holds nothing.
#[verifier::external_body]
pub(crate) fn index_new() -> (index: HashIndex)
    ensures
        index_entries(index).dom() == Set::<u32>::empty(),
{
    HashIndex { inner: hashbrown::HashMap::default() }
}

/// `raw_entry().from_hash(..)` of hashbrown, with the test "the string at
/// this position is `string`".
///
/// hashbrown walks the slots that `hash` leads to and hands each position
/// found there to the test. A position that it returns is in the map and has
/// passed the test; the hash it is filed under may differ from `hash`. When
/// it returns nothing, no position filed under `hash` passes the test.
#[verifier::external_body]
pub(crate) fn index_find(
    index: &HashIndex,
    hash: u64,
    strs: &Vec<&'static str>,
    string: &str,
) -> (found: Option<u32>)
    requires
        forall|k: u32| #[trigger]
            index_entries(*index).dom().contains(k) ==> (k as int) < strs@.len(),
    ensures
        match found {
            Some(at) => index_entries(*index).dom().contains(at) && strs@[at as int]@ == string@,
            None => forall|k: u32|
                index_entries(*index).dom().contains(k) && #[trigger] index_entries(*index)[k]
                    == hash ==> strs@[k as int]@ != string@,
        },
{
    index.inner.raw_entry().from_hash(hash, |k| entry_matches(strs, *k, string)).map(|(k, _)| *k)
}

/// `raw_entry_mut().from_hash(..)` of hashbrown with the same test, then
/// `insert_with_hasher` on the vacant entry: files the position `at` under
/// `hash`.
///
/// No position in the map may pass the test, so the entry is vacant and the
/// map gains exactly `at`. When hashbrown grows its table it asks for the
/// hash of each position it holds; it is given the hash of the string there,
/// which must be the hash that position is filed under.
#[verifier::external_body]
pub(crate) fn index_insert<S: HashPolicy>(
    index: &mut HashIndex,
    hash: u64,
    at: u32,
    strs: &Vec<&'static str>,
    string: &str,
    policy: &S,
)
    requires
        !index_entries(*old(index)).dom().contains(at),
        forall|k: u32| #[trigger]
            index_entries(*old(index)).dom().contains(k) ==> {
                &&& (k as int) < strs@.len()
                &&& strs@[k as int]@ != string@
                &&& index_entries(*old(index))[k] == S::spec_hash(strs@[k as int]@)
            },
    ensures
        index_entries(*final(index)) == index_entries(*old(index)).insert(at, hash),
{
    if let RawEntryMut::Vacant(entry) = index.inner.raw_entry_mut().from_hash(
        hash,
        |k| entry_matches(strs, *k, string),
    ) {
        entry.insert_with_hasher(hash, at, (), |k| entry_hash(policy, strs, *k));
    }
}

} // verus!
