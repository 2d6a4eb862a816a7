use std::hash::BuildHasher;
use symbol_table::hash_one;
use symbol_table::DeterministicHashBuilder;
use symbol_table::HashPolicy;
use symbol_table::InternError;
use symbol_table::Shard;
use symbol_table::SymbolTable;

/// Gives every string the same hash.
struct Colliding;

impl HashPolicy for Colliding {
    fn spec_hash(_s: vstd::seq::Seq<char>) -> u64 {
        42
    }

    fn hash_str(&self, _s: &str) -> u64 {
        42
    }
}

#[test]
fn the_default_hash_is_seeded_ahash() {
    let policy = DeterministicHashBuilder;
    let seeded = ahash::RandomState::with_seeds(0, 0, 0, 0);
    for word in ["", "a", "asdf", "🧵", "a much longer string that fills more than one block"] {
        assert_eq!(hash_one(&policy, word), seeded.hash_one(word));
        assert_eq!(hash_one(&policy, word), policy.hash_one(word));
        assert_eq!(policy.hash_str(word), hash_one(&policy, word));
    }
    assert_ne!(hash_one(&policy, "a"), hash_one(&policy, "b"));
    assert_ne!(hash_one(&policy, ""), 0);
}

#[test]
fn the_default_hash_does_not_change_between_values() {
    let first = DeterministicHashBuilder;
    let second = DeterministicHashBuilder::default();
    assert_eq!(hash_one(&first, "same"), hash_one(&second, "same"));
    assert_eq!(hash_one(&first, "same"), hash_one(&first, "same"));
}

#[test]
fn a_shard_gives_positions_in_order() {
    let policy = DeterministicHashBuilder;
    let mut shard = Shard::<16, DeterministicHashBuilder>::new();
    assert_eq!(shard.len(), 0);
    assert_eq!(shard.get(0), None);
    let words = ["zero", "one", "two", "three"];
    for (i, word) in words.iter().enumerate() {
        let at = shard.intern(hash_one(&policy, word), word, &policy);
        assert_eq!(at, Some(i as u32));
        assert_eq!(shard.len(), i + 1);
    }
    for (i, word) in words.iter().enumerate() {
        assert_eq!(shard.intern(hash_one(&policy, word), word, &policy), Some(i as u32));
        assert_eq!(shard.get(i as u32), Some(*word));
    }
    assert_eq!(shard.len(), 4);
    assert_eq!(shard.get(4), None);
    assert_eq!(shard.get(u32::MAX), None);
}

#[test]
fn a_shard_that_grows_finds_every_string_again() {
    let policy = DeterministicHashBuilder;
    let mut shard = Shard::<16, DeterministicHashBuilder>::new();
    let words: Vec<String> = (0..20_000).map(|i| format!("w{i}")).collect();
    for (i, word) in words.iter().enumerate() {
        assert_eq!(shard.intern(hash_one(&policy, word), word, &policy), Some(i as u32));
    }
    for (i, word) in words.iter().enumerate() {
        assert_eq!(shard.intern(hash_one(&policy, word), word, &policy), Some(i as u32));
        assert_eq!(shard.get(i as u32), Some(word.as_str()));
    }
    assert_eq!(shard.len(), 20_000);
}

#[test]
fn equal_hashes_do_not_make_strings_equal() {
    let policy = Colliding;
    let mut shard = Shard::<16, Colliding>::new();
    let words: Vec<String> = (0..300).map(|i| format!("collide-{i}")).collect();
    for (i, word) in words.iter().enumerate() {
        assert_eq!(shard.intern(42, word, &policy), Some(i as u32));
    }
    for (i, word) in words.iter().enumerate() {
        assert_eq!(shard.intern(42, word, &policy), Some(i as u32));
        assert_eq!(shard.get(i as u32), Some(word.as_str()));
    }
    assert_eq!(shard.len(), 300);
}

#[test]
fn a_table_of_colliding_strings_tells_them_apart() {
    let table = SymbolTable::<4, Colliding>::with_hasher(Colliding);
    let a = table.intern("a").unwrap();
    let b = table.intern("b").unwrap();
    let c = table.intern("").unwrap();
    assert_ne!(a, b);
    assert_ne!(b, c);
    // 42 % 4 == 2: all of them live in shard 2, at positions 1, 2 and 3.
    assert_eq!(a.get(), (2 << 30) | 1);
    assert_eq!(b.get(), (2 << 30) | 2);
    assert_eq!(c.get(), (2 << 30) | 3);
    assert_eq!(table.intern("a").unwrap(), a);
    assert_eq!(table.resolve(b).unwrap(), "b");
    assert_eq!(table.resolve(c).unwrap(), "");
}

#[test]
fn intern_in_packs_shard_and_position() {
    let policy = DeterministicHashBuilder;
    let mut shard = Shard::<16, DeterministicHashBuilder>::new();
    let first = SymbolTable::<16, DeterministicHashBuilder>::intern_in(
        &mut shard,
        5,
        hash_one(&policy, "first"),
        "first",
        &policy,
    );
    assert_eq!(first.unwrap().get(), 0x5000_0001);
    let second = SymbolTable::<16, DeterministicHashBuilder>::intern_in(
        &mut shard,
        5,
        hash_one(&policy, "second"),
        "second",
        &policy,
    );
    assert_eq!(second.unwrap().get(), 0x5000_0002);
    let again = SymbolTable::<16, DeterministicHashBuilder>::intern_in(
        &mut shard,
        5,
        hash_one(&policy, "first"),
        "first",
        &policy,
    );
    assert_eq!(again, first);
    assert_eq!(
        SymbolTable::<16, DeterministicHashBuilder>::resolve_in(&shard, second.unwrap()),
        Some("second")
    );
    assert_eq!(
        SymbolTable::<16, DeterministicHashBuilder>::resolve_in(
            &shard,
            symbol_table::Symbol::new(0x5000_0003).unwrap()
        ),
        None
    );
    assert_eq!(
        SymbolTable::<16, DeterministicHashBuilder>::resolve_in(
            &shard,
            symbol_table::Symbol::new(0x5000_0000).unwrap()
        ),
        None
    );
}

#[test]
fn a_full_shard_refuses_new_strings_only() {
    let policy = DeterministicHashBuilder;
    let mut shard = Shard::<1024, DeterministicHashBuilder>::new();
    let max = symbol_table::symbol::max_index(1024);
    assert_eq!(max, 4_194_303);
    let mut word = String::new();
    for i in 0..max {
        word.clear();
        word.push_str("s");
        word.push_str(&i.to_string());
        let at = shard.intern(hash_one(&policy, &word), &word, &policy);
        assert_eq!(at, Some(i));
    }
    assert_eq!(shard.len(), max as usize);
    let last = SymbolTable::<1024, DeterministicHashBuilder>::intern_in(
        &mut shard,
        1023,
        hash_one(&policy, &word),
        &word,
        &policy,
    );
    assert_eq!(last.unwrap().get(), u32::MAX);
    let fresh = SymbolTable::<1024, DeterministicHashBuilder>::intern_in(
        &mut shard,
        1023,
        hash_one(&policy, "one too many"),
        "one too many",
        &policy,
    );
    assert_eq!(fresh, Err(InternError::CapacityExceeded));
    assert_eq!(shard.intern(hash_one(&policy, "another"), "another", &policy), None);
    assert_eq!(shard.len(), max as usize);
    assert_eq!(shard.intern(hash_one(&policy, "s0"), "s0", &policy), Some(0));
    assert_eq!(shard.get(max - 1), Some(word.as_str()));
    assert_eq!(
        SymbolTable::<1024, DeterministicHashBuilder>::resolve_in(&shard, last.unwrap()),
        Some(word.as_str())
    );
}
