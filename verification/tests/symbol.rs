use symbol_table::symbol::max_index;
use symbol_table::symbol::shard_bits;
use symbol_table::table::route;
use symbol_table::Symbol;

#[test]
fn zero_is_no_symbol() {
    assert_eq!(Symbol::new(0), None);
    assert_eq!(Symbol::new(1).unwrap().get(), 1);
    assert_eq!(Symbol::new(u32::MAX).unwrap().get(), u32::MAX);
    assert_eq!(Symbol::new(0x1234_5678).unwrap().get(), 0x1234_5678);
}

#[test]
fn shard_bits_cover_the_last_shard() {
    assert_eq!(shard_bits(1), 0);
    assert_eq!(shard_bits(2), 1);
    assert_eq!(shard_bits(3), 2);
    assert_eq!(shard_bits(4), 2);
    assert_eq!(shard_bits(5), 3);
    assert_eq!(shard_bits(8), 3);
    assert_eq!(shard_bits(9), 4);
    assert_eq!(shard_bits(16), 4);
    assert_eq!(shard_bits(17), 5);
    assert_eq!(shard_bits(512), 9);
    assert_eq!(shard_bits(513), 10);
    assert_eq!(shard_bits(1024), 10);
}

#[test]
fn max_index_fills_the_lower_bits() {
    assert_eq!(max_index(1), u32::MAX);
    assert_eq!(max_index(2), 0x7fff_ffff);
    assert_eq!(max_index(3), 0x3fff_ffff);
    assert_eq!(max_index(16), 0x0fff_ffff);
    assert_eq!(max_index(1024), 0x003f_ffff);
}

#[test]
fn pack_puts_the_shard_on_top() {
    assert_eq!(Symbol::pack(3, 5, 16).get(), 0x3000_0005);
    assert_eq!(Symbol::pack(0, 1, 16).get(), 1);
    assert_eq!(Symbol::pack(15, 0x0fff_ffff, 16).get(), u32::MAX);
    assert_eq!(Symbol::pack(0, 7, 1).get(), 7);
    assert_eq!(Symbol::pack(0, u32::MAX, 1).get(), u32::MAX);
    assert_eq!(Symbol::pack(2, 1, 3).get(), 0x8000_0001);
    assert_eq!(Symbol::pack(1023, 0x003f_ffff, 1024).get(), u32::MAX);
    assert_eq!(Symbol::pack(1, 2, 1024).get(), 0x0040_0002);
}

#[test]
fn shard_and_position_read_back() {
    for n in [1usize, 2, 3, 16, 100, 1024] {
        let max = max_index(n);
        for shard in [0, n / 2, n - 1] {
            for local in [1, 2, max / 2, max - 1, max] {
                if local == 0 {
                    continue;
                }
                let sym = Symbol::pack(shard, local, n);
                assert_eq!(sym.shard_index(n), shard);
                assert_eq!(sym.local_index(n), local);
            }
        }
    }
}

#[test]
fn parts_of_a_given_number() {
    let sym = Symbol::new(0xabcd_ef01).unwrap();
    assert_eq!(sym.shard_index(16), 0xa);
    assert_eq!(sym.local_index(16), 0x0bcd_ef01);
    assert_eq!(sym.shard_index(1), 0);
    assert_eq!(sym.local_index(1), 0xabcd_ef01);
    assert_eq!(sym.shard_index(1024), 0xabcd_ef01 >> 22);
    assert_eq!(sym.local_index(1024), 0xabcd_ef01 & 0x003f_ffff);
    assert_eq!(sym.shard_index(3), 2);
    assert_eq!(Symbol::new(0x3000_0000).unwrap().local_index(16), 0);
}

#[test]
fn symbols_order_by_their_number() {
    let a = Symbol::new(1).unwrap();
    let b = Symbol::new(2).unwrap();
    let c = Symbol::new(0x1000_0000).unwrap();
    assert!(a < b);
    assert!(b < c);
    assert_eq!(a, Symbol::new(1).unwrap());
    assert_eq!(a.max(c), c);
    let copy = a;
    assert_eq!(copy, a);
}

#[test]
fn route_is_the_hash_modulo_the_shards() {
    assert_eq!(route(0, 16), 0);
    assert_eq!(route(17, 16), 1);
    assert_eq!(route(u64::MAX, 16), 15);
    assert_eq!(route(u64::MAX, 1), 0);
    assert_eq!(route(u64::MAX, 3), 0);
    assert_eq!(route(0x1_0000_0001, 1024), 1);
    assert_eq!(route(1000, 7), 6);
}
