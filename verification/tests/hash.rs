use snap_coin_node::hash::BlockHash;

fn with_last_bytes(tail: &[u8]) -> BlockHash {
    let mut bytes = [0u8; 32];
    let from = 32 - tail.len();
    bytes[from..].copy_from_slice(tail);
    BlockHash::new(bytes)
}

/// Base 36 by long division, most significant digit first.
fn long_division_base36(bytes: [u8; 32]) -> String {
    let mut number = bytes.to_vec();
    let mut digits: Vec<u8> = Vec::new();
    while number.iter().any(|b| *b != 0) {
        let mut remainder: u32 = 0;
        for b in number.iter_mut() {
            let current = remainder * 256 + u32::from(*b);
            *b = (current / 36) as u8;
            remainder = current % 36;
        }
        digits.push(b"0123456789abcdefghijklmnopqrstuvwxyz"[remainder as usize]);
    }
    if digits.is_empty() {
        digits.push(b'0');
    }
    digits.reverse();
    String::from_utf8(digits).unwrap()
}

#[test]
fn new_keeps_the_bytes() {
    let mut bytes = [0u8; 32];
    for (i, b) in bytes.iter_mut().enumerate() {
        *b = i as u8;
    }
    assert_eq!(BlockHash::new(bytes).bytes, bytes);
}

#[test]
fn same_is_bytewise() {
    let a = with_last_bytes(&[1, 2, 3]);
    let b = with_last_bytes(&[1, 2, 3]);
    let c = with_last_bytes(&[1, 2, 4]);
    let mut first = [0u8; 32];
    first[0] = 1;
    let d = BlockHash::new(first);
    assert!(a.same(&b));
    assert!(a.same(&a));
    assert!(!a.same(&c));
    assert!(!c.same(&a));
    assert!(!BlockHash::new([0; 32]).same(&d));
    assert!(BlockHash::new([255; 32]).same(&BlockHash::new([255; 32])));
}

#[test]
fn label_of_the_zero_hash() {
    assert_eq!(BlockHash::new([0; 32]).dump_base36(), "0");
}

#[test]
fn label_of_small_values() {
    assert_eq!(with_last_bytes(&[1]).dump_base36(), "1");
    assert_eq!(with_last_bytes(&[9]).dump_base36(), "9");
    assert_eq!(with_last_bytes(&[10]).dump_base36(), "a");
    assert_eq!(with_last_bytes(&[35]).dump_base36(), "z");
    assert_eq!(with_last_bytes(&[36]).dump_base36(), "10");
    assert_eq!(with_last_bytes(&[255]).dump_base36(), "73");
    assert_eq!(with_last_bytes(&[1, 0]).dump_base36(), "74");
    assert_eq!(with_last_bytes(&[5, 16]).dump_base36(), "100");
}

#[test]
fn label_reads_bytes_most_significant_first() {
    let mut bytes = [0u8; 32];
    bytes[0] = 1;
    let high = BlockHash::new(bytes).dump_base36();
    assert_eq!(high, "waum9lsz88q62wl8zk7gdtuc4ogb9fytnwza5jzt4ih10hz4");
    assert_eq!(high, long_division_base36(bytes));
}

#[test]
fn label_of_the_largest_hash() {
    let label = BlockHash::new([255; 32]).dump_base36();
    assert_eq!(label, long_division_base36([255; 32]));
    assert_eq!(label.len(), 50);
    assert_eq!(label, "6dp5qcb22im238nr3wvp0ic7q99w035jmy2iw7i6n43d37jtof");
}

#[test]
fn label_agrees_with_long_division() {
    let mut bytes = [0u8; 32];
    let mut seed: u32 = 12345;
    for round in 0..200 {
        for b in bytes.iter_mut() {
            seed = seed.wrapping_mul(1664525).wrapping_add(1013904223);
            *b = (seed >> 24) as u8;
        }
        if round % 7 == 0 {
            bytes[0] = 0;
            bytes[1] = 0;
        }
        let label = BlockHash::new(bytes).dump_base36();
        assert_eq!(label, long_division_base36(bytes));
        assert!(label.bytes().all(|c| c.is_ascii_digit() || c.is_ascii_lowercase()));
        assert!(!label.starts_with('0'));
    }
}

#[test]
fn label_reads_back_to_the_hash() {
    let hash = with_last_bytes(&[0xde, 0xad, 0xbe, 0xef, 0x00, 0x01]);
    let label = hash.dump_base36();
    assert_eq!(label, "2escxsyewx");
    let back = snap_coin::crypto::Hash::new_from_base36(&label).unwrap();
    assert_eq!(back.dump_buf(), hash.bytes);
}

#[test]
fn distinct_hashes_have_distinct_labels() {
    let mut labels = std::collections::HashSet::new();
    for high in 0u8..=20 {
        for low in 0u8..=60 {
            let mut bytes = [0u8; 32];
            bytes[0] = high;
            bytes[31] = low;
            assert!(labels.insert(BlockHash::new(bytes).dump_base36()));
        }
    }
    let mut leading = [0u8; 32];
    leading[30] = 1;
    let mut trailing = [0u8; 32];
    trailing[31] = 1;
    assert_ne!(BlockHash::new(leading).dump_base36(), BlockHash::new(trailing).dump_base36());
}
