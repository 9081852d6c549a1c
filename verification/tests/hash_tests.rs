//! The voter-identity digest.

use anonvote::model::UserData;
use anonvote::zkp::PublicKey;
use num_bigint::BigUint;

#[test]
fn test_hash() {
    let data1 = PublicKey::new(
        BigUint::from(1u32).to_bytes_be(),
        BigUint::from(2u32).to_bytes_be(),
        BigUint::from(3u32).to_bytes_be(),
        BigUint::from(4u32).to_bytes_be(),
    );
    let data2 = PublicKey::new(
        BigUint::from(1u32).to_bytes_be(),
        BigUint::from(2u32).to_bytes_be(),
        BigUint::from(3u32).to_bytes_be(),
        BigUint::from(4u32).to_bytes_be(),
    );

    let data1 = UserData { key: data1 };
    let data2 = UserData { key: data2 };

    let hash1 = data1.get_hash();
    let hash2 = data2.get_hash();

    assert_eq!(hash1, hash2, "Hashes should be the same for equal UserData instances.");
}

#[test]
fn test_hash_distinguishes_components() {
    // swapping bytes between components changes the digest: the canonical
    // serialisation is length-prefixed
    let key1 = PublicKey::new(vec![1, 2], vec![], vec![3], vec![4]);
    let key2 = PublicKey::new(vec![1], vec![2], vec![3], vec![4]);
    let h1 = UserData { key: key1 }.get_hash();
    let h2 = UserData { key: key2 }.get_hash();
    assert_ne!(h1, h2);
}

#[test]
fn test_hash_ignores_leading_zeros() {
    // padded encodings denote the same numbers, so they name the same voter
    let key1 = PublicKey::new(vec![0, 0, 8], vec![0, 6], vec![4], vec![18]);
    let key2 = PublicKey::new(vec![8], vec![6], vec![0, 4], vec![18]);
    let h1 = UserData { key: key1 }.get_hash();
    let h2 = UserData { key: key2 }.get_hash();
    assert_eq!(h1, h2);
}

#[test]
fn test_hash_exact_value() {
    // the digest of the empty tuple: FNV-1a over four zero length prefixes
    let key = PublicKey::new(vec![], vec![], vec![], vec![]);
    let h = UserData { key }.get_hash();
    // FNV-1a of 32 zero bytes, computed independently
    let mut expected: u64 = 0xcbf29ce484222325;
    for _ in 0..32 {
        expected ^= 0;
        expected = expected.wrapping_mul(0x100000001b3);
    }
    assert_eq!(h, expected);
}
