//! One shard of the table: the strings interned into it, in the order in which
//! they came, and the hash index that finds a string's position again.
//!
//! A shard only grows. A string, once in it, keeps its position and is never
//! moved, changed or freed.

use crate::hasher::HashPolicy;
use crate::index::index_entries;
use crate::index::index_find;
use crate::index::index_insert;
use crate::index::index_new;
use crate::index::HashIndex;
use crate::symbol::lemma_shard_bits;
use crate::symbol::max_index;
use crate::symbol::spec_max_index;
use crate::symbol::MAX_SHARDS;
use std::marker::PhantomData;
use vstd::prelude::*;

verus! {

/// What a shard of a table of `n` shards may hold: no string twice, and no
/// more strings than a symbol of that table has positions for.
pub open spec fn shard_wf(strs: Seq<Seq<char>>, n: nat) -> bool {
    &&& 1 <= n <= MAX_SHARDS
    &&& strs.no_duplicates()
    &&& strs.len() <= spec_max_index(n)
}

/// Interning `s` into a shard that holds `strs` and may hold `limit` strings:
/// the strings it holds afterwards, and the position of `s` among them.
///
/// A string that is there keeps its position. A new one goes to the end, if
/// the shard holds fewer than `limit` strings. If it is full, the shard stays
/// as it is and there is no position.
pub open spec fn spec_intern(strs: Seq<Seq<char>>, s: Seq<char>, limit: nat) -> (
    Seq<Seq<char>>,
    Option<int>,
) {
    if strs.contains(s) {
        (strs, Some(strs.index_of(s)))
    } else if strs.len() < limit {
        (strs.push(s), Some(strs.len() as int))
    } else {
        (strs, None)
    }
}

/// What interning does to a shard that holds no string twice and at most
/// `limit` strings: the shard keeps what it had, in place; it still holds no
/// string twice and at most `limit` strings; the position returned is that of
/// `s`; and there is no position exactly when `s` is new and the shard full,
/// in which case nothing changes.
pub proof fn lemma_spec_intern(strs: Seq<Seq<char>>, s: Seq<char>, limit: nat)
    requires
        strs.no_duplicates(),
        strs.len() <= limit,
    ensures
        ({
            let (after, at) = spec_intern(strs, s, limit);
            &&& strs.is_prefix_of(after)
            &&& after.no_duplicates()
            &&& after.len() <= limit
            &&& after.contains(s) || after == strs
            &&& strs.contains(s) ==> after == strs
            &&& forall|x: Seq<char>| after.contains(x) ==> strs.contains(x) || x == s
            &&& match at {
                Some(i) => 0 <= i < after.len() && after[i] == s,
                None => !strs.contains(s) && strs.len() == limit && after == strs,
            }
        }),
{
    let (after, at) = spec_intern(strs, s, limit);
    if strs.contains(s) {
    } else if strs.len() < limit {
        assert(after[strs.len() as int] == s);
        assert(after.contains(s));
        assert forall|x: Seq<char>| after.contains(x) implies strs.contains(x) || x == s by {
            let i = choose|i: int| 0 <= i < after.len() && after[i] == x;
            if i < strs.len() {
                assert(strs[i] == x);
            }
        }
    }
}

/// The strings of one shard of a table of `N` shards. Its view is the
/// sequence of these strings, each as its sequence of characters.
pub struct Shard<const N: usize, S: HashPolicy> {
    index: HashIndex,
    strs: Vec<&'static str>,
    policy: PhantomData<S>,
}

impl<const N: usize, S: HashPolicy> View for Shard<N, S> {
    type V = Seq<Seq<char>>;

    closed spec fn view(&self) -> Seq<Seq<char>> {
        Seq::new(self.strs@.len(), |i: int| self.strs@[i]@)
    }
}

impl<const N: usize, S: HashPolicy> Shard<N, S> {
    /// The index holds exactly the positions of `strs`, each filed under the
    /// hash of the string there, and no string is there twice.
    #[verifier::type_invariant]
    spec fn inv(self) -> bool {
        &&& 1 <= N <= MAX_SHARDS
        &&& self.strs@.len() <= spec_max_index(N as nat)
        &&& forall|k: u32| #[trigger]
            index_entries(self.index).dom().contains(k) <==> (k as int) < self.strs@.len()
        &&& forall|k: u32|
            (k as int) < self.strs@.len() ==> #[trigger] index_entries(self.index)[k]
                == S::spec_hash(self.strs@[k as int]@)
        &&& forall|i: int, j: int|
            0 <= i < self.strs@.len() && 0 <= j < self.strs@.len() && i != j ==> self.strs@[i]@
                != self.strs@[j]@
    }

    /// A shard that holds nothing.
    pub fn new() -> (shard: Self)
        requires
            1 <= N <= MAX_SHARDS,
        ensures
            shard@ == Seq::<Seq<char>>::empty(),
    {
        Shard { index: index_new(), strs: Vec::new(), policy: PhantomData }
    }

    /// The number of strings in the shard.
    pub fn len(&self) -> (n: usize)
        ensures
            n == self@.len(),
            shard_wf(self@, N as nat),
    {
        proof {
            use_type_invariant(self);
        }
        self.strs.len()
    }

    /// The string at position `at`, if the shard has that many strings.
    pub fn get(&self, at: u32) -> (r: Option<&'static str>)
        ensures
            shard_wf(self@, N as nat),
            match r {
                Some(s) => (at as int) < self@.len() && s@ == self@[at as int],
                None => (at as int) >= self@.len(),
            },
    {
        proof {
            use_type_invariant(self);
        }
        if (at as usize) < self.strs.len() {
            Some(self.strs[at as usize])
        } else {
            None
        }
    }

    /// Interns `string`, whose hash is `hash`, and returns its position.
    ///
    /// The shard is searched under `hash` for a position whose string equals
    /// `string`; equal hashes alone never make two strings one. If there is
    /// none, a copy of `string` is put at the end and its position is filed
    /// under `hash`. A full shard takes no new string and returns `None`.
    pub fn intern(&mut self, hash: u64, string: &str, policy: &S) -> (r: Option<u32>)
        requires
            hash == S::spec_hash(string@),
        ensures
            shard_wf(old(self)@, N as nat),
            shard_wf(final(self)@, N as nat),
            final(self)@ == spec_intern(old(self)@, string@, spec_max_index(N as nat)).0,
            match r {
                Some(at) => spec_intern(old(self)@, string@, spec_max_index(N as nat)).1 == Some(
                    at as int,
                ),
                None => spec_intern(old(self)@, string@, spec_max_index(N as nat)).1.is_none(),
            },
    {
        proof {
            use_type_invariant(&*self);
            lemma_shard_bits(N as nat);
        }
        let ghost before = self@;
        match index_find(&self.index, hash, &self.strs, string) {
            Some(at) => {
                proof {
                    assert(before[at as int] == string@);
                }
                Some(at)
            },
            None => {
                proof {
                    assert forall|i: int| 0 <= i < before.len() implies before[i] != string@ by {
                        let k = i as u32;
                        if before[i] == string@ {
                            assert(index_entries(self.index).dom().contains(k));
                            assert(index_entries(self.index)[k] == hash);
                        }
                    }
                }
                if self.strs.len() >= max_index(N) as usize {
                    return None;
                }
                let ghost strs0 = self.strs@;
                let ghost filed0 = index_entries(self.index);
                let mut grown = Shard::new();
                std::mem::swap(self, &mut grown);
                let Shard { mut index, mut strs, policy: marker } = grown;
                let at = strs.len() as u32;
                strs.push(leak_string(string.to_owned()));
                proof {
                    assert(index_entries(index) == filed0);
                    assert forall|k: u32| #[trigger] filed0.dom().contains(k) implies {
                        &&& (k as int) < strs@.len()
                        &&& strs@[k as int]@ != string@
                        &&& filed0[k] == S::spec_hash(strs@[k as int]@)
                    } by {
                        assert(strs@[k as int] == strs0[k as int]);
                        assert(before[k as int] == strs0[k as int]@);
                    }
                }
                index_insert(&mut index, hash, at, &strs, string, policy);
                proof {
                    let filed = index_entries(index);
                    assert forall|k: u32| #[trigger]
                        filed.dom().contains(k) <==> (k as int) < strs@.len() by {
                        assert(filed0.dom().contains(k) <==> (k as int) < strs0.len());
                    }
                    assert forall|k: u32| (k as int) < strs@.len() implies #[trigger] filed[k]
                        == S::spec_hash(strs@[k as int]@) by {
                        if k != at {
                            assert(strs@[k as int] == strs0[k as int]);
                            assert(filed0[k] == S::spec_hash(strs0[k as int]@));
                        }
                    }
                    assert forall|i: int, j: int|
                        0 <= i < strs@.len() && 0 <= j < strs@.len() && i != j implies strs@[i]@
                        != strs@[j]@ by {
                        if i < strs0.len() {
                            assert(before[i] == strs0[i]@);
                        }
                        if j < strs0.len() {
                            assert(before[j] == strs0[j]@);
                        }
                    }
                }
                *self = Shard { index, strs, policy: marker };
                proof {
                    assert(self@ =~= before.push(string@));
                }
                Some(at)
            },
        }
    }
}

/// `String::leak` of std: the string's buffer is given up for good, and what
/// comes back is a slice of the same characters that lives as long as the
/// process does.
#[verifier::external_body]
fn leak_string(s: String) -> (r: &'static str)
    ensures
        r@ == s@,
{
    s.leak()
}

} // verus!
