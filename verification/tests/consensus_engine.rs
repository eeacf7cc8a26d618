//! Consensus engine scenarios: proposer scheduling, ranking, confirmation
//! quorums, and the authoring/validation pipeline.

use dpos_consensus::block::{create_header, encode_header, DigestEntry};
use dpos_consensus::consensus::{ConsensusError, DPoS, Validator};
use dpos_consensus::crypto::{keypair_from_seed, KeyPair};
use dpos_consensus::Error;

fn keypair(seed_byte: u8) -> KeyPair {
    keypair_from_seed(&[seed_byte; 32]).expect("32-byte seed always works")
}

fn validator(key: &[u8], stake: u64) -> Validator {
    Validator { public_key: key.to_vec(), stake, votes: 0 }
}

fn engine_with_n_validators(n: usize) -> (DPoS, Vec<Vec<u8>>) {
    let kp = keypair(1);
    let mut engine = DPoS::new(kp, 100, 10);
    let mut ids = Vec::new();
    for i in 0..n {
        let key = vec![i as u8 + 10; 32];
        engine.add_validator(validator(&key, 100)).unwrap();
        ids.push(key);
    }
    (engine, ids)
}

#[test]
fn empty_registry_never_proposes() {
    let kp = keypair(1);
    let engine = DPoS::new(kp, 10, 10);
    for now in [0u64, 1, 9, 10, 25, u64::MAX] {
        assert!(!engine.is_current_proposer(now));
    }
}

#[test]
fn proposer_rotates_deterministically() {
    let kp = keypair(7);
    let my_key = kp.public_key().clone();
    let mut engine = DPoS::new(kp, 10, 10);
    engine.add_validator(validator(&[1u8; 32], 5)).unwrap();
    engine.add_validator(validator(&my_key, 5)).unwrap();
    // round = now / 10; index = round % 2; the local key sits at index 1.
    assert!(!engine.is_current_proposer(5)); // round 0 -> index 0
    assert!(engine.is_current_proposer(15)); // round 1 -> index 1
    assert!(!engine.is_current_proposer(25)); // round 2 -> index 0
    assert!(engine.is_current_proposer(35)); // round 3 -> index 1
    // Re-evaluating the same instant gives the same answer.
    assert_eq!(engine.is_current_proposer(15), engine.is_current_proposer(15));
}

#[test]
fn current_round_is_integer_division() {
    assert_eq!(dpos_consensus::consensus::current_round(25, 10), 2);
    assert_eq!(dpos_consensus::consensus::current_round(0, 10), 0);
    assert_eq!(dpos_consensus::consensus::current_round(9, 10), 0);
    assert_eq!(dpos_consensus::consensus::current_round(10, 10), 1);
}

#[test]
fn quorum_threshold_of_four_needs_three_confirmations() {
    let (mut engine, _ids) = engine_with_n_validators(4);
    let hash = vec![0xAB; 32];
    // threshold = 4 * 2 / 3 = 2; finalization needs more than 2 confirmations.
    assert_eq!(engine.confirm_block(hash.clone(), vec![1; 32]).unwrap(), false);
    assert_eq!(engine.confirm_block(hash.clone(), vec![2; 32]).unwrap(), false);
    assert_eq!(engine.confirm_block(hash.clone(), vec![3; 32]).unwrap(), true);
}

#[test]
fn duplicate_confirmations_do_not_count_twice() {
    let (mut engine, _ids) = engine_with_n_validators(4);
    let hash = vec![0xCD; 32];
    let voter = vec![1u8; 32];
    assert_eq!(engine.confirm_block(hash.clone(), voter.clone()).unwrap(), false);
    assert_eq!(engine.confirm_block(hash.clone(), voter.clone()).unwrap(), false);
    assert_eq!(engine.confirm_block(hash.clone(), voter.clone()).unwrap(), false);
    // Three distinct validators do finalize.
    assert_eq!(engine.confirm_block(hash.clone(), vec![2; 32]).unwrap(), false);
    assert_eq!(engine.confirm_block(hash, vec![3; 32]).unwrap(), true);
}

#[test]
fn finalization_never_reverts() {
    let (mut engine, _ids) = engine_with_n_validators(4);
    let hash = vec![0xEF; 32];
    assert_eq!(engine.confirm_block(hash.clone(), vec![1; 32]).unwrap(), false);
    assert_eq!(engine.confirm_block(hash.clone(), vec![2; 32]).unwrap(), false);
    assert_eq!(engine.confirm_block(hash.clone(), vec![3; 32]).unwrap(), true);
    // Once finalized, every further confirmation reports finalized, whatever
    // the identity and however often it repeats.
    for b in [1u8, 2, 3, 4, 99] {
        assert_eq!(engine.confirm_block(hash.clone(), vec![b; 32]).unwrap(), true);
    }
    // Other hashes are unaffected.
    assert_eq!(engine.confirm_block(vec![0x11; 32], vec![1; 32]).unwrap(), false);
}

#[test]
fn single_validator_finalizes_on_first_confirmation() {
    let (mut engine, _ids) = engine_with_n_validators(1);
    // threshold = 1 * 2 / 3 = 0; one confirmation exceeds it.
    assert_eq!(engine.confirm_block(vec![0x22; 32], vec![1; 32]).unwrap(), true);
}

#[test]
fn ranking_orders_by_stake_times_votes() {
    let kp = keypair(2);
    let mut engine = DPoS::new(kp, 100, 10);
    let key_a = vec![0xA1; 32];
    let key_b = vec![0xB1; 32];
    engine.add_validator(validator(&key_a, 10)).unwrap();
    engine.add_validator(validator(&key_b, 5)).unwrap();
    // A: stake 10 with 2 voters -> 20; B: stake 5 with 5 voters -> 25.
    for v in 0..2u8 {
        engine.vote(vec![v; 32], key_a.clone()).unwrap();
    }
    for v in 10..15u8 {
        engine.vote(vec![v; 32], key_b.clone()).unwrap();
    }
    engine.update_validators().unwrap();
    assert_eq!(engine.proposer_at(0).unwrap().public_key, key_b);
    assert_eq!(engine.proposer_at(0).unwrap().votes, 5);
    assert_eq!(engine.proposer_at(1).unwrap().public_key, key_a);
    assert_eq!(engine.proposer_at(1).unwrap().votes, 2);
    assert!(engine.proposer_at(2).is_none());
}

#[test]
fn ranking_ties_keep_original_order() {
    let kp = keypair(3);
    let mut engine = DPoS::new(kp, 100, 10);
    let key_a = vec![0xA2; 32];
    let key_b = vec![0xB2; 32];
    // A: stake 10 with 1 voter -> 10; B: stake 5 with 2 voters -> 10.
    engine.add_validator(validator(&key_a, 10)).unwrap();
    engine.add_validator(validator(&key_b, 5)).unwrap();
    engine.vote(vec![1; 32], key_a.clone()).unwrap();
    engine.vote(vec![2; 32], key_b.clone()).unwrap();
    engine.vote(vec![3; 32], key_b.clone()).unwrap();
    engine.update_validators().unwrap();
    assert_eq!(engine.proposer_at(0).unwrap().public_key, key_a);
    assert_eq!(engine.proposer_at(1).unwrap().public_key, key_b);
}

#[test]
fn duplicate_votes_are_idempotent() {
    let kp = keypair(4);
    let mut engine = DPoS::new(kp, 100, 10);
    let key = vec![0xC3; 32];
    engine.add_validator(validator(&key, 7)).unwrap();
    engine.vote(vec![1; 32], key.clone()).unwrap();
    engine.vote(vec![1; 32], key.clone()).unwrap();
    engine.vote(vec![1; 32], key.clone()).unwrap();
    engine.update_validators().unwrap();
    assert_eq!(engine.proposer_at(0).unwrap().votes, 1);
}

#[test]
fn ranking_truncates_to_the_cap() {
    let kp = keypair(5);
    let mut engine = DPoS::new(kp, 2, 10);
    let keys: Vec<Vec<u8>> = (0..4u8).map(|i| vec![i + 1; 32]).collect();
    for (i, key) in keys.iter().enumerate() {
        engine.add_validator(validator(key, 10)).unwrap();
        // give validator i exactly i+1 voters
        for v in 0..=i as u8 {
            engine.vote(vec![v + 100; 32], key.clone()).unwrap();
        }
    }
    engine.update_validators().unwrap();
    // Scores 10, 20, 30, 40: only the two best survive, best first.
    assert_eq!(engine.proposer_at(0).unwrap().public_key, keys[3]);
    assert_eq!(engine.proposer_at(1).unwrap().public_key, keys[2]);
    assert!(engine.proposer_at(2).is_none());
}

#[test]
fn end_to_end_third_validator_proposes_round_two() {
    // Three validators with stakes [100, 50, 10], no votes; round_interval 10
    // and now = 25 give round 2 and proposer index 2 mod 3 = 2: the third
    // validator, since with zero votes all scores are 0 and insertion order
    // is preserved.
    let kp3 = keypair(31);
    let my_key = kp3.public_key().clone();
    let mut engine = DPoS::new(kp3, 10, 10);
    engine.add_validator(validator(&[0x01; 32], 100)).unwrap();
    engine.add_validator(validator(&[0x02; 32], 50)).unwrap();
    engine.add_validator(validator(&my_key, 10)).unwrap();
    let block = engine
        .generate_block(vec![], 25, [0u8; 32], 0, [0u8; 32], [0u8; 32])
        .expect("the third validator authors round 2");
    // The authored block passes validation against the same registry.
    engine.validate_block(&block).expect("authored block validates");

    // Any other node identity must fail with NotCurrentProposer.
    let kp1 = keypair(32);
    let other_key = kp1.public_key().clone();
    let mut other = DPoS::new(kp1, 10, 10);
    other.add_validator(validator(&other_key, 100)).unwrap();
    other.add_validator(validator(&[0x02; 32], 50)).unwrap();
    other.add_validator(validator(&[0x03; 32], 10)).unwrap();
    let err = other
        .generate_block(vec![], 25, [0u8; 32], 0, [0u8; 32], [0u8; 32])
        .unwrap_err();
    assert_eq!(err, Error::Consensus(ConsensusError::NotCurrentProposer));
}

#[test]
fn generated_block_carries_author_and_seal() {
    let kp = keypair(33);
    let my_key = kp.public_key().clone();
    let mut engine = DPoS::new(kp, 10, 10);
    engine.add_validator(validator(&my_key, 10)).unwrap();
    let block = engine
        .generate_block(vec![], 5, [7u8; 32], 42, [8u8; 32], [9u8; 32])
        .unwrap();
    assert_eq!(block.header.number, 42);
    assert_eq!(block.header.parent_hash, [7u8; 32]);
    assert_eq!(block.header.state_root, [8u8; 32]);
    assert_eq!(block.header.extrinsics_root, [9u8; 32]);
    assert_eq!(block.header.digest.len(), 2);
    match &block.header.digest[0] {
        DigestEntry::PreRuntime { data, .. } => assert_eq!(data, &my_key),
        _ => panic!("first digest entry must carry the author"),
    }
    match &block.header.digest[1] {
        DigestEntry::Seal { data, .. } => assert_eq!(data.len(), 64),
        _ => panic!("second digest entry must be the seal"),
    }
}

#[test]
fn malformed_transaction_is_a_fatal_input_error() {
    let kp = keypair(34);
    let my_key = kp.public_key().clone();
    let mut engine = DPoS::new(kp, 10, 10);
    engine.add_validator(validator(&my_key, 10)).unwrap();
    // A SCALE-encoded opaque extrinsic: compact length 1, then one byte.
    let good = vec![4u8, 9u8];
    let block = engine
        .generate_block(vec![good], 5, [0u8; 32], 0, [0u8; 32], [0u8; 32])
        .unwrap();
    assert_eq!(block.extrinsics.len(), 1);
    // A truncated encoding cannot be decoded.
    let bad = vec![0xFFu8];
    let err = engine
        .generate_block(vec![bad], 5, [0u8; 32], 0, [0u8; 32], [0u8; 32])
        .unwrap_err();
    assert_eq!(err, Error::BlockValidation);
}

#[test]
fn unsigned_block_with_known_author_passes_validation() {
    let (engine, ids) = engine_with_n_validators(2);
    let digest = vec![DigestEntry::PreRuntime { engine: [0u8; 4], data: ids[1].clone() }];
    let header = create_header(0, [0u8; 32], [0u8; 32], [0u8; 32], digest);
    let block = dpos_consensus::block::create_block(header, vec![]);
    // Deliberate, documented leniency: an author entry without any seal
    // passes author-matching only.
    engine.validate_block(&block).expect("unsigned block is accepted");
}

#[test]
fn block_without_author_is_rejected() {
    let (engine, _ids) = engine_with_n_validators(2);
    let header = create_header(0, [0u8; 32], [0u8; 32], [0u8; 32], vec![]);
    let block = dpos_consensus::block::create_block(header, vec![]);
    assert_eq!(
        engine.validate_block(&block).unwrap_err(),
        Error::Consensus(ConsensusError::InvalidProposer)
    );
}

#[test]
fn block_with_unregistered_author_is_rejected() {
    let (engine, _ids) = engine_with_n_validators(2);
    let digest = vec![DigestEntry::PreRuntime { engine: [0u8; 4], data: vec![0x77; 32] }];
    let header = create_header(0, [0u8; 32], [0u8; 32], [0u8; 32], digest);
    let block = dpos_consensus::block::create_block(header, vec![]);
    assert_eq!(
        engine.validate_block(&block).unwrap_err(),
        Error::Consensus(ConsensusError::InvalidProposer)
    );
}

#[test]
fn malformed_or_forged_seal_is_rejected() {
    let (engine, ids) = engine_with_n_validators(2);
    // Malformed: a seal that is not 64 bytes long.
    let digest = vec![
        DigestEntry::PreRuntime { engine: [0u8; 4], data: ids[0].clone() },
        DigestEntry::Seal { engine: [0u8; 4], data: vec![1, 2, 3] },
    ];
    let header = create_header(0, [0u8; 32], [0u8; 32], [0u8; 32], digest);
    let block = dpos_consensus::block::create_block(header, vec![]);
    assert_eq!(
        engine.validate_block(&block).unwrap_err(),
        Error::Consensus(ConsensusError::InvalidSignature)
    );
    // Forged: 64 bytes that are no signature by the author.
    let digest = vec![
        DigestEntry::PreRuntime { engine: [0u8; 4], data: ids[0].clone() },
        DigestEntry::Seal { engine: [0u8; 4], data: vec![0x55; 64] },
    ];
    let header = create_header(0, [0u8; 32], [0u8; 32], [0u8; 32], digest);
    let block = dpos_consensus::block::create_block(header, vec![]);
    assert_eq!(
        engine.validate_block(&block).unwrap_err(),
        Error::Consensus(ConsensusError::InvalidSignature)
    );
}

#[test]
fn tampered_header_fails_validation() {
    let kp = keypair(35);
    let my_key = kp.public_key().clone();
    let mut engine = DPoS::new(kp, 10, 10);
    engine.add_validator(validator(&my_key, 10)).unwrap();
    let mut block = engine
        .generate_block(vec![], 5, [0u8; 32], 1, [0u8; 32], [0u8; 32])
        .unwrap();
    engine.validate_block(&block).expect("untouched block validates");
    // Change one byte of the signed content: the seal no longer matches.
    block.header.number = 2;
    assert_eq!(
        engine.validate_block(&block).unwrap_err(),
        Error::Consensus(ConsensusError::InvalidSignature)
    );
}

#[test]
fn finalize_block_reports_pending_then_finalized() {
    // With a single validator the author's own confirmation reaches quorum.
    let kp = keypair(36);
    let my_key = kp.public_key().clone();
    let mut engine = DPoS::new(kp, 10, 10);
    engine.add_validator(validator(&my_key, 10)).unwrap();
    let block = engine
        .generate_block(vec![], 5, [0u8; 32], 0, [0u8; 32], [0u8; 32])
        .unwrap();
    engine.finalize_block(&block).expect("1 confirmation > threshold 0");

    // With four validators one self-confirmation is not enough.
    let kp = keypair(37);
    let my_key = kp.public_key().clone();
    let mut engine = DPoS::new(kp, 10, 10);
    engine.add_validator(validator(&my_key, 10)).unwrap();
    for b in [1u8, 2, 3] {
        engine.add_validator(validator(&[b; 32], 10)).unwrap();
    }
    let block = engine
        .generate_block(vec![], 5, [0u8; 32], 0, [0u8; 32], [0u8; 32])
        .unwrap();
    assert_eq!(
        engine.finalize_block(&block).unwrap_err(),
        Error::Consensus(ConsensusError::FinalizationFailed)
    );
    // Two peer confirmations later, the same attempt succeeds.
    let encoded = encode_header(&block.header);
    let hash = dpos_consensus::crypto::hash(&encoded);
    assert_eq!(engine.confirm_block(hash.clone(), vec![1; 32]).unwrap(), false);
    assert_eq!(engine.confirm_block(hash, vec![2; 32]).unwrap(), true);
    engine.finalize_block(&block).expect("already finalized");
}
