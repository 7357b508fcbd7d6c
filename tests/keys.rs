use std::hash::Hasher;

use join_probe::keys_ref::KeysRef;
use join_probe::hash_functions::CityHasher64;
use join_probe::hash_functions::HashValue;
use join_probe::hash_functions::city64_with_seed_value;
use join_probe::hash_functions::siphash64_value;
use join_probe::hash_functions::xxhash32_value;
use join_probe::hash_functions::xxhash64_value;
use std::hash::Hash;
use join_probe::hash_functions::HashError;
use join_probe::hash_functions::blake3_hex;
use join_probe::hash_functions::city64_with_seed;
use join_probe::hash_functions::md5_hex;
use join_probe::hash_functions::sha1_hex;
use join_probe::hash_functions::sha2_hex;
use join_probe::hash_functions::siphash64;
use join_probe::hash_functions::xxhash32;
use join_probe::hash_functions::xxhash64;
use join_probe::table_option_keys::is_internal_opt_key;
use join_probe::table_option_keys::is_reserved_opt_key;

#[test]
fn equal_bytes_in_different_buffers_are_equal_keys() {
    let a: Vec<u8> = b"xxhello".to_vec();
    let b: Vec<u8> = b"hello!".to_vec();
    let ka = KeysRef::create(&a, 2, 5);
    let kb = KeysRef::create(&b, 0, 5);
    assert!(ka == kb);
    assert_eq!(ka.hash(), kb.hash());
    let kc = KeysRef::create(&b, 1, 5);
    assert!(ka != kc);
    let kd = KeysRef::create(&b, 0, 4);
    assert!(ka != kd);
}

#[test]
fn key_hash_is_xxhash64_of_content() {
    let buf: Vec<u8> = b"abcdef".to_vec();
    let k = KeysRef::create(&buf, 1, 3);
    let mut h = twox_hash::XxHash64::with_seed(0);
    h.write(b"bcd");
    assert_eq!(k.hash(), h.finish());
    assert_eq!(k.length(), 3);
    assert_eq!(k.address(), 1);
}

#[test]
fn reserved_option_keys_in_any_case() {
    assert!(is_reserved_opt_key("database_id"));
    assert!(is_reserved_opt_key("DATABASE_ID"));
    assert!(is_reserved_opt_key("Legacy_Snapshot_Loc"));
    assert!(!is_reserved_opt_key("storage_format"));
    assert!(is_internal_opt_key("LEGACY_SNAPSHOT_LOC"));
    assert!(is_internal_opt_key("Database_Id"));
    assert!(!is_internal_opt_key("database"));
}

#[test]
fn digest_functions_match_known_values() {
    assert_eq!(md5_hex(b"abc"), "900150983cd24fb0d6963f7d28e17f72");
    assert_eq!(sha1_hex(b"abc"), "a9993e364706816aba3e25717850c26c9cd0d89d");
    assert_eq!(blake3_hex(b"abc"), "6437b3ac38465133ffb63b75273a8db548c558465d79db03fd359c6cd5bd9d85");
    let sha256 = "ba7816bf8f01cfea414140de5dae2223b00361a396177a9cb410ff61f20015ad";
    assert_eq!(sha2_hex(b"abc", 256).unwrap(), sha256);
    assert_eq!(sha2_hex(b"abc", 0).unwrap(), sha256);
    assert_eq!(sha2_hex(b"abc", 224).unwrap(), "23097d223405d8228642a477bda255b32aadbce4bda0b3f7e36c9da7");
    assert_eq!(
        sha2_hex(b"abc", 384).unwrap(),
        "cb00753f45a35e8bb5a03d699ac65007272c32ab0eded1631a8b605a43ff5bed8086072ba1e7cc2358baeca134c825a7"
    );
    assert_eq!(
        sha2_hex(b"abc", 512).unwrap(),
        "ddaf35a193617abacc417349ae20413112e6fa4e89a97ea20a9eeee64b55d39a2192992a274fc1a836ba3c23a3feebbd454d4423643ce80e2a9ac94fa54ca49f"
    );
    assert_eq!(sha2_hex(b"abc", 128), Err(HashError::UnsupportedSha2Length(128)));
}

#[test]
fn numeric_hashes_match_their_hashers() {
    let mut x64 = twox_hash::XxHash64::with_seed(0);
    x64.write(b"hashjoin");
    assert_eq!(xxhash64(b"hashjoin"), x64.finish());
    let mut x32 = twox_hash::XxHash32::with_seed(0);
    x32.write(b"hashjoin");
    assert_eq!(xxhash32(b"hashjoin") as u64, x32.finish());
    let mut sip = std::collections::hash_map::DefaultHasher::new();
    sip.write(b"hashjoin");
    assert_eq!(siphash64(b"hashjoin"), sip.finish());
    assert_eq!(city64_with_seed(b"hashjoin", 7), Some(naive_cityhash::cityhash64_with_seed(b"hashjoin", 7)));
    assert_ne!(city64_with_seed(b"hashjoin", 7), Some(7));
    assert_eq!(city64_with_seed(&[0xFFu8; 33], 1), None);
    let fine = [1u8; 40];
    assert_eq!(city64_with_seed(&fine, 1), Some(naive_cityhash::cityhash64_with_seed(&fine, 1)));
    let mut c = CityHasher64::with_seed(3);
    assert_eq!(c.finish(), 0);
    c.write(b"x");
    assert_eq!(c.finish(), naive_cityhash::cityhash64_with_seed(b"x", 3));
}

#[test]
fn value_hashes_match_std_hash_of_the_value() {
    let mut sip = std::collections::hash_map::DefaultHasher::new();
    7u32.hash(&mut sip);
    assert_eq!(siphash64_value(&HashValue::UInt32(7)), sip.finish());
    let mut sip = std::collections::hash_map::DefaultHasher::new();
    true.hash(&mut sip);
    assert_eq!(siphash64_value(&HashValue::Boolean(true)), sip.finish());
    let mut x64 = twox_hash::XxHash64::with_seed(0);
    (-5i64).hash(&mut x64);
    assert_eq!(xxhash64_value(&HashValue::Int64(-5)), x64.finish());
    let mut x32 = twox_hash::XxHash32::with_seed(0);
    (-3i16).hash(&mut x32);
    assert_eq!(xxhash32_value(&HashValue::Int16(-3)) as u64, x32.finish());
    let bits = 1.5f64.to_bits();
    assert_eq!(
        city64_with_seed_value(&HashValue::Float64Bits(bits), 9),
        Some(naive_cityhash::cityhash64_with_seed(&bits.to_le_bytes(), 9))
    );
    assert_eq!(xxhash64_value(&HashValue::Bytes(b"ab".to_vec())), xxhash64(b"ab"));
}
