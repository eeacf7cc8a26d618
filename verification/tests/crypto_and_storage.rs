//! Crypto primitives (sign/verify round trip, hashing, key derivation) and
//! in-memory block storage.

use dpos_consensus::block::{create_block, create_header, create_transaction, encode_header, Call, DigestEntry};
use dpos_consensus::crypto::{generate_keypair, hash, keypair_from_seed, sign, verify};
use dpos_consensus::storage::MemoryStorage;
use dpos_consensus::Error;

#[test]
fn keypair_from_seed_is_deterministic() {
    let a = keypair_from_seed(&[42u8; 32]).unwrap();
    let b = keypair_from_seed(&[42u8; 32]).unwrap();
    assert_eq!(a.public_key(), b.public_key());
    assert_eq!(a.public_key().len(), 32);
    let c = keypair_from_seed(&[43u8; 32]).unwrap();
    assert_ne!(a.public_key(), c.public_key());
}

#[test]
fn keypair_from_bad_seed_length_is_rejected() {
    assert!(matches!(keypair_from_seed(&[1u8; 31]), Err(Error::Crypto)));
    assert!(matches!(keypair_from_seed(&[]), Err(Error::Crypto)));
    assert!(keypair_from_seed(&[1u8; 32]).is_ok());
}

#[test]
fn generated_keypairs_are_fresh() {
    let a = generate_keypair();
    let b = generate_keypair();
    assert_eq!(a.public_key().len(), 32);
    assert_ne!(a.public_key(), b.public_key());
}

#[test]
fn sign_verify_round_trip_on_header_encoding() {
    let kp = keypair_from_seed(&[9u8; 32]).unwrap();
    let digest = vec![DigestEntry::PreRuntime { engine: [0u8; 4], data: kp.public_key().clone() }];
    let header = create_header(3, [1u8; 32], [2u8; 32], [3u8; 32], digest);
    let encoded = encode_header(&header);
    let sig = sign(&kp, &encoded);
    assert_eq!(sig.len(), 64);
    assert!(verify(&sig, &encoded, kp.public_key()));
    // Mutating a single byte of the encoded header breaks verification.
    let mut tampered = encoded.clone();
    tampered[0] ^= 1;
    assert!(!verify(&sig, &tampered, kp.public_key()));
    // A wrong key does not verify either.
    let other = keypair_from_seed(&[10u8; 32]).unwrap();
    assert!(!verify(&sig, &encoded, other.public_key()));
}

#[test]
fn header_encoding_is_deterministic_and_field_sensitive() {
    let mk = |n: u64| create_header(n, [1u8; 32], [2u8; 32], [3u8; 32], vec![]);
    assert_eq!(encode_header(&mk(5)), encode_header(&mk(5)));
    assert_ne!(encode_header(&mk(5)), encode_header(&mk(6)));
}

#[test]
fn blake2_hash_matches_known_vector() {
    // Blake2b-256 of the empty string.
    let expected = [
        0x0e, 0x57, 0x51, 0xc0, 0x26, 0xe5, 0x43, 0xb2, 0xe8, 0xab, 0x2e, 0xb0, 0x60, 0x99,
        0xda, 0xa1, 0xd1, 0xe5, 0xdf, 0x47, 0x77, 0x8f, 0x77, 0x87, 0xfa, 0xab, 0x45, 0xcd,
        0xf1, 0x2f, 0xe3, 0xa8,
    ];
    assert_eq!(hash(&[]), expected.to_vec());
    assert_eq!(hash(b"abc").len(), 32);
    assert_ne!(hash(b"abc"), hash(b"abd"));
}

#[test]
fn transactions_round_through_the_block_model() {
    let tx = create_transaction(Call { data: vec![1, 2, 3] });
    let header = create_header(0, [0u8; 32], [0u8; 32], [0u8; 32], vec![]);
    let block = create_block(header, vec![tx]);
    assert_eq!(block.extrinsics.len(), 1);
}

#[test]
fn storage_stores_and_finds_blocks() {
    let mut store = MemoryStorage::new();
    assert_eq!(store.get_height().unwrap(), 0);
    assert!(store.get_latest_block().unwrap().is_none());

    let header = create_header(7, [1u8; 32], [0u8; 32], [0u8; 32], vec![]);
    let block = create_block(header, vec![]);
    let hash_bytes = hash(&encode_header(&block.header));
    store.put_block(block).unwrap();

    assert!(store.has_block(&hash_bytes).unwrap());
    assert!(!store.has_block(&vec![0u8; 32]).unwrap());
    assert_eq!(store.get_block(&hash_bytes).unwrap().unwrap().header.number, 7);
    assert_eq!(store.get_latest_block().unwrap().unwrap().header.number, 7);
    assert_eq!(store.get_height().unwrap(), 7);
}

#[test]
fn storage_latest_follows_the_most_recent_put() {
    let mut store = MemoryStorage::new();
    let first = create_block(create_header(1, [0u8; 32], [0u8; 32], [0u8; 32], vec![]), vec![]);
    let second = create_block(create_header(2, [9u8; 32], [0u8; 32], [0u8; 32], vec![]), vec![]);
    let first_hash = hash(&encode_header(&first.header));
    store.put_block(first).unwrap();
    assert_eq!(store.get_height().unwrap(), 1);
    store.put_block(second).unwrap();
    assert_eq!(store.get_height().unwrap(), 2);
    // The first block is still retrievable under its own hash.
    assert_eq!(store.get_block(&first_hash).unwrap().unwrap().header.number, 1);
}
