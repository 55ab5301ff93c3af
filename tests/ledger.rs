use crawchain::consensus::{Consensus, ProofOfStake};
use crawchain::ledger::{AdmissionError, Blockchain};
use crawchain::model::{preimage, Block, Token, Transaction, ZKProof};
use p256::ecdsa::signature::Signer;
use p256::ecdsa::{Signature, SigningKey};
use sha2::Digest;

fn alice_key() -> SigningKey {
    SigningKey::from_slice(&[7u8; 32]).unwrap()
}

fn public_key_bytes(key: &SigningKey) -> Vec<u8> {
    key.verifying_key().to_encoded_point(false).as_bytes().to_vec()
}

fn sign(key: &SigningKey, message: &[u8]) -> String {
    let signature: Signature = key.sign(message);
    hex::encode(signature.to_der().as_bytes())
}

fn transaction(sender: &str, token: Token, nonce: u64, gas_limit: u64) -> Transaction {
    Transaction {
        sender: sender.to_string(),
        receiver: "Bob".to_string(),
        token,
        nonce,
        contract_code: None,
        gas_limit,
        zkp: None,
        signature: String::new(),
    }
}

fn signed(key: &SigningKey, mut tx: Transaction) -> Transaction {
    tx.signature = sign(key, &tx.signed_message());
    tx
}

fn chain_with_alice() -> Blockchain {
    let mut chain = Blockchain::new().unwrap();
    chain.register_public_key("Alice".to_string(), public_key_bytes(&alice_key()));
    chain
}

fn other_shard(shard: usize) -> usize {
    1 - shard
}

#[test]
fn signed_message_matches_canonical_text() {
    let tx = transaction("Alice", Token::CustodyToken(10_000_000), 1, 1000);
    assert_eq!(tx.signed_message(), b"Alice:Bob:CustodyToken(10.0):1:1000".to_vec());
}

#[test]
fn signed_message_renders_fractions_and_energy() {
    let tx = transaction("Carol", Token::EnergyToken(10_500_000), 42, 7);
    assert_eq!(tx.signed_message(), b"Carol:Bob:EnergyToken(10.5):42:7".to_vec());
    let tiny = transaction("Carol", Token::CustodyToken(1), 0, 1);
    assert_eq!(tiny.signed_message(), b"Carol:Bob:CustodyToken(0.000001):0:1".to_vec());
    let big = transaction("Carol", Token::CustodyToken(123_450_000), 18446744073709551615, 1);
    assert_eq!(
        big.signed_message(),
        b"Carol:Bob:CustodyToken(123.45):18446744073709551615:1".to_vec()
    );
}

#[test]
fn genesis_has_one_block_per_shard() {
    let chain = Blockchain::new().unwrap();
    for shard in 0..2 {
        let blocks = chain.shard(shard).unwrap();
        assert_eq!(blocks.len(), 1);
        assert_eq!(blocks[0].index, 0);
        assert_eq!(blocks[0].previous_hash, "0");
        assert_eq!(blocks[0].shard_id, Some(shard as u64));
        assert!(blocks[0].transactions.is_empty());
    }
    assert!(chain.shard(2).is_none());
}

#[test]
fn alice_transaction_appends_one_block() {
    let key = alice_key();
    let mut chain = chain_with_alice();
    let tx = transaction("Alice", Token::CustodyToken(10_000_000), 1, 1000);
    let tx = Transaction { signature: sign(&key, b"Alice:Bob:CustodyToken(10.0):1:1000"), ..tx };
    let shard = chain.assign_shard(&tx.sender);
    let genesis_hash = chain.shard(shard).unwrap()[0].hash.clone();
    let other_before: Vec<String> =
        chain.shard(other_shard(shard)).unwrap().iter().map(|b| b.hash.clone()).collect();

    assert_eq!(chain.add_block(vec![tx.clone()], shard), Ok(()));

    let blocks = chain.shard(shard).unwrap();
    assert_eq!(blocks.len(), 2);
    assert_eq!(blocks[1].index, 1);
    assert_eq!(blocks[1].previous_hash, genesis_hash);
    assert_eq!(blocks[1].shard_id, Some(shard as u64));
    assert_eq!(blocks[1].transactions.len(), 1);
    assert_eq!(blocks[1].transactions[0].signature, tx.signature);
    assert_eq!(blocks[1].transactions[0].nonce, 1);
    let other_after: Vec<String> =
        chain.shard(other_shard(shard)).unwrap().iter().map(|b| b.hash.clone()).collect();
    assert_eq!(other_before, other_after);
    assert!(chain.used_nonces.contains(&1));
}

#[test]
fn resubmitting_same_nonce_is_replay() {
    let key = alice_key();
    let mut chain = chain_with_alice();
    let tx = signed(&key, transaction("Alice", Token::CustodyToken(10_000_000), 1, 1000));
    let shard = chain.assign_shard("Alice");
    assert_eq!(chain.add_block(vec![tx.clone()], shard), Ok(()));
    assert_eq!(chain.add_block(vec![tx.clone()], shard), Err(AdmissionError::ReplayedNonce));
    assert_eq!(chain.shard(shard).unwrap().len(), 2);
    assert_eq!(chain.used_nonces.len(), 1);
    assert_eq!(
        chain.add_block(vec![tx], other_shard(shard)),
        Err(AdmissionError::ReplayedNonce)
    );
    assert_eq!(chain.shard(other_shard(shard)).unwrap().len(), 1);
}

#[test]
fn zero_gas_is_rejected_with_valid_signature() {
    let key = alice_key();
    let mut chain = chain_with_alice();
    let tx = signed(&key, transaction("Alice", Token::CustodyToken(10_000_000), 1, 0));
    assert_eq!(chain.add_block(vec![tx], 0), Err(AdmissionError::InvalidTransaction));
    assert_eq!(chain.shard(0).unwrap().len(), 1);
    assert!(chain.used_nonces.is_empty());
}

#[test]
fn zero_gas_is_rejected_with_invalid_signature() {
    let mut chain = chain_with_alice();
    let mut tx = transaction("Alice", Token::CustodyToken(10_000_000), 1, 0);
    tx.signature = "00".to_string();
    assert_eq!(chain.add_block(vec![tx], 0), Err(AdmissionError::InvalidSignature));
    assert_eq!(chain.shard(0).unwrap().len(), 1);
}

#[test]
fn tampered_signature_byte_is_rejected() {
    let key = alice_key();
    let mut chain = chain_with_alice();
    let tx = signed(&key, transaction("Alice", Token::CustodyToken(10_000_000), 1, 1000));
    assert!(chain.verify_signature(&tx));
    let mut bytes = hex::decode(&tx.signature).unwrap();
    for position in [0usize, 5, bytes.len() - 1] {
        let mut tampered_bytes = bytes.clone();
        tampered_bytes[position] ^= 0x01;
        let tampered = Transaction { signature: hex::encode(&tampered_bytes), ..tx.clone() };
        assert!(!chain.verify_signature(&tampered));
    }
    bytes[10] ^= 0x80;
    let tampered = Transaction { signature: hex::encode(&bytes), ..tx.clone() };
    assert_eq!(chain.add_block(vec![tampered], 0), Err(AdmissionError::InvalidSignature));
    assert!(chain.used_nonces.is_empty());
}

#[test]
fn tampered_field_is_rejected() {
    let key = alice_key();
    let chain = chain_with_alice();
    let tx = signed(&key, transaction("Alice", Token::CustodyToken(10_000_000), 1, 1000));
    let more = Transaction { token: Token::CustodyToken(11_000_000), ..tx.clone() };
    assert!(!chain.verify_signature(&more));
    let other_kind = Transaction { token: Token::EnergyToken(10_000_000), ..tx.clone() };
    assert!(!chain.verify_signature(&other_kind));
}

#[test]
fn unregistered_sender_is_rejected() {
    let key = alice_key();
    let mut chain = Blockchain::new().unwrap();
    let tx = signed(&key, transaction("Alice", Token::CustodyToken(1), 1, 1));
    assert!(!chain.verify_signature(&tx));
    assert_eq!(chain.add_block(vec![tx], 0), Err(AdmissionError::InvalidSignature));
}

#[test]
fn malformed_signature_is_rejected() {
    let key = alice_key();
    let chain = chain_with_alice();
    let tx = signed(&key, transaction("Alice", Token::CustodyToken(1), 1, 1));
    let odd = Transaction { signature: tx.signature[1..].to_string(), ..tx.clone() };
    assert!(!chain.verify_signature(&odd));
    let not_hex = Transaction { signature: format!("zz{}", &tx.signature[2..]), ..tx.clone() };
    assert!(!chain.verify_signature(&not_hex));
    let upper = Transaction { signature: tx.signature.to_uppercase(), ..tx.clone() };
    assert!(chain.verify_signature(&upper));
}

#[test]
fn latest_key_registration_is_in_force() {
    let old_key = alice_key();
    let new_key = SigningKey::from_slice(&[9u8; 32]).unwrap();
    let mut chain = chain_with_alice();
    chain.register_public_key("Alice".to_string(), public_key_bytes(&new_key));
    let by_old = signed(&old_key, transaction("Alice", Token::CustodyToken(1), 1, 1));
    let by_new = signed(&new_key, transaction("Alice", Token::CustodyToken(1), 1, 1));
    assert!(!chain.verify_signature(&by_old));
    assert!(chain.verify_signature(&by_new));
}

#[test]
fn zero_amount_is_invalid() {
    let key = alice_key();
    let mut chain = chain_with_alice();
    let tx = signed(&key, transaction("Alice", Token::EnergyToken(0), 3, 10));
    assert!(!chain.validate_transaction(&tx));
    assert_eq!(chain.add_block(vec![tx], 1), Err(AdmissionError::InvalidTransaction));
}

#[test]
fn invalid_shard_is_rejected_and_nothing_recorded() {
    let key = alice_key();
    let mut chain = chain_with_alice();
    let tx = signed(&key, transaction("Alice", Token::CustodyToken(5), 1, 10));
    assert_eq!(chain.add_block(vec![tx], 2), Err(AdmissionError::InvalidShard));
    assert!(chain.used_nonces.is_empty());
    assert_eq!(chain.shard(0).unwrap().len(), 1);
    assert_eq!(chain.shard(1).unwrap().len(), 1);
}

#[test]
fn duplicate_nonce_inside_batch_rolls_back() {
    let key = alice_key();
    let mut chain = chain_with_alice();
    let a = signed(&key, transaction("Alice", Token::CustodyToken(5), 4, 10));
    let b = signed(&key, transaction("Alice", Token::CustodyToken(6), 5, 10));
    let c = signed(&key, transaction("Alice", Token::CustodyToken(7), 4, 10));
    assert_eq!(chain.add_block(vec![a, b, c], 0), Err(AdmissionError::ReplayedNonce));
    assert!(chain.used_nonces.is_empty());
    assert_eq!(chain.shard(0).unwrap().len(), 1);
}

#[test]
fn batch_records_every_nonce_and_chains_blocks() {
    let key = alice_key();
    let mut chain = chain_with_alice();
    let a = signed(&key, transaction("Alice", Token::CustodyToken(5), 4, 10));
    let b = signed(&key, transaction("Alice", Token::CustodyToken(6), 5, 10));
    assert_eq!(chain.add_block(vec![a, b], 1), Ok(()));
    let c = signed(&key, transaction("Alice", Token::CustodyToken(6), 6, 10));
    assert_eq!(chain.add_block(vec![c], 1), Ok(()));
    assert_eq!(chain.used_nonces.len(), 3);
    let blocks = chain.shard(1).unwrap();
    assert_eq!(blocks.len(), 3);
    for i in 1..3 {
        assert_eq!(blocks[i].index, i as u64);
        assert_eq!(blocks[i].previous_hash, blocks[i - 1].hash);
        let b = &blocks[i];
        assert_eq!(
            Block::calculate_hash(b.index, &b.timestamp, &b.transactions, &b.previous_hash, b.shard_id),
            b.hash
        );
    }
    assert_eq!(blocks[1].transactions.len(), 2);
    assert_eq!(chain.shard(0).unwrap().len(), 1);
}

#[test]
fn empty_batch_appends_empty_block() {
    let mut chain = Blockchain::new().unwrap();
    assert_eq!(chain.add_block(vec![], 0), Ok(()));
    assert_eq!(chain.shard(0).unwrap().len(), 2);
    assert!(chain.shard(0).unwrap()[1].transactions.is_empty());
}

#[test]
fn nonce_is_consumed_once() {
    let mut chain = Blockchain::new().unwrap();
    assert!(chain.validate_nonce(9));
    assert!(!chain.validate_nonce(9));
    assert!(chain.validate_nonce(10));
    assert_eq!(chain.used_nonces.len(), 2);
}

#[test]
fn shard_assignment_is_stable_and_in_range() {
    let chain = Blockchain::new().unwrap();
    let mut seen = [false; 2];
    for name in ["Alice", "Bob", "Carol", "Dave", "Eve", "Mallory", "", "Zoë"] {
        let first = chain.assign_shard(name);
        assert_eq!(first, chain.assign_shard(name));
        assert!(first < 2);
        let digest = sha2::Sha256::digest(name.as_bytes());
        assert_eq!(first, (digest[0] as usize) % 2);
        seen[first] = true;
    }
    assert!(seen[0] && seen[1]);
}

#[test]
fn hash_is_deterministic_and_sensitive() {
    let tx = transaction("Alice", Token::CustodyToken(10_000_000), 1, 1000);
    let txs = vec![tx.clone()];
    let h = Block::calculate_hash(1, "2024-01-01T00:00:00+00:00", &txs, "abc", Some(0));
    assert_eq!(h, Block::calculate_hash(1, "2024-01-01T00:00:00+00:00", &txs, "abc", Some(0)));
    assert_eq!(h.len(), 64);
    assert!(h.chars().all(|c| c.is_ascii_digit() || ('a'..='f').contains(&c)));
    assert_ne!(h, Block::calculate_hash(2, "2024-01-01T00:00:00+00:00", &txs, "abc", Some(0)));
    assert_ne!(h, Block::calculate_hash(1, "2024-01-01T00:00:01+00:00", &txs, "abc", Some(0)));
    assert_ne!(h, Block::calculate_hash(1, "2024-01-01T00:00:00+00:00", &txs, "abd", Some(0)));
    assert_ne!(h, Block::calculate_hash(1, "2024-01-01T00:00:00+00:00", &txs, "abc", Some(1)));
    assert_ne!(h, Block::calculate_hash(1, "2024-01-01T00:00:00+00:00", &txs, "abc", None));
    assert_ne!(h, Block::calculate_hash(1, "2024-01-01T00:00:00+00:00", &vec![], "abc", Some(0)));
    let other = Transaction { gas_limit: 1001, ..tx.clone() };
    assert_ne!(h, Block::calculate_hash(1, "2024-01-01T00:00:00+00:00", &vec![other], "abc", Some(0)));
    let second = transaction("Carol", Token::EnergyToken(3), 2, 5);
    let forward = Block::calculate_hash(1, "t", &vec![tx.clone(), second.clone()], "abc", Some(0));
    let backward = Block::calculate_hash(1, "t", &vec![second, tx], "abc", Some(0));
    assert_ne!(forward, backward);
}

#[test]
fn hash_is_sha256_of_preimage_in_hex() {
    let txs = vec![transaction("Alice", Token::CustodyToken(1), 1, 1)];
    let bytes = preimage(3, "t", &txs, "0", Some(1));
    let expected = hex::encode(sha2::Sha256::digest(&bytes));
    assert_eq!(Block::calculate_hash(3, "t", &txs, "0", Some(1)), expected);
}

#[test]
fn preimage_layout_is_fixed() {
    let bytes = preimage(0, "t", &vec![], "0", Some(1));
    let mut expected: Vec<u8> = vec![0; 8];
    expected.extend_from_slice(&[0, 0, 0, 0, 0, 0, 0, 1, b't']);
    expected.extend_from_slice(&[0; 8]);
    expected.extend_from_slice(&[0, 0, 0, 0, 0, 0, 0, 1, b'0']);
    expected.extend_from_slice(&[1, 0, 0, 0, 0, 0, 0, 0, 1]);
    assert_eq!(bytes, expected);
    let none = preimage(258, "", &vec![], "", None);
    assert_eq!(none, vec![0, 0, 0, 0, 0, 0, 1, 2, 0, 0, 0, 0, 0, 0, 0, 0, 0, 0, 0, 0, 0, 0, 0, 0, 0, 0, 0, 0, 0, 0, 0, 0, 0]);
}

#[test]
fn transaction_preimage_covers_payload_and_proof() {
    let mut tx = transaction("A", Token::EnergyToken(2), 3, 4);
    tx.contract_code = Some(vec![0xaa]);
    tx.zkp = Some(ZKProof { public_input: vec![0xbb], proof: vec![] });
    tx.signature = "s".to_string();
    let bytes = preimage(0, "", &vec![tx.clone()], "", None);
    let mut expected: Vec<u8> = vec![0; 8];
    expected.extend_from_slice(&[0; 8]);
    expected.extend_from_slice(&[0, 0, 0, 0, 0, 0, 0, 1]);
    expected.extend_from_slice(&[0, 0, 0, 0, 0, 0, 0, 1, b'A']);
    expected.extend_from_slice(&[0, 0, 0, 0, 0, 0, 0, 3, b'B', b'o', b'b']);
    expected.extend_from_slice(&[1, 0, 0, 0, 0, 0, 0, 0, 2]);
    expected.extend_from_slice(&[0, 0, 0, 0, 0, 0, 0, 3]);
    expected.extend_from_slice(&[1, 0, 0, 0, 0, 0, 0, 0, 1, 0xaa]);
    expected.extend_from_slice(&[0, 0, 0, 0, 0, 0, 0, 4]);
    expected.extend_from_slice(&[1, 0, 0, 0, 0, 0, 0, 0, 1, 0xbb, 0, 0, 0, 0, 0, 0, 0, 0]);
    expected.extend_from_slice(&[0, 0, 0, 0, 0, 0, 0, 1, b's']);
    expected.extend_from_slice(&[0; 8]);
    expected.push(0);
    assert_eq!(bytes, expected);
}

#[test]
fn stake_policy_requires_positive_gas() {
    let good = Block::with_timestamp(
        1,
        "t".to_string(),
        vec![transaction("A", Token::CustodyToken(1), 1, 1)],
        "0".to_string(),
        Some(0),
    );
    assert!(ProofOfStake.validate_block(&good));
    let bad = Block::with_timestamp(
        1,
        "t".to_string(),
        vec![transaction("A", Token::CustodyToken(1), 1, 1), transaction("A", Token::CustodyToken(1), 2, 0)],
        "0".to_string(),
        Some(0),
    );
    assert!(!ProofOfStake.validate_block(&bad));
    let empty = Block::with_timestamp(1, "t".to_string(), vec![], "0".to_string(), Some(0));
    assert!(ProofOfStake.validate_block(&empty));
}

#[test]
fn appended_block_carries_given_timestamp() {
    let key = alice_key();
    let mut chain = chain_with_alice();
    let tx = signed(&key, transaction("Alice", Token::CustodyToken(5), 1, 10));
    let stamp = "2024-05-06T07:08:09+00:00".to_string();
    assert_eq!(chain.append_block(&ProofOfStake, vec![tx], 0, stamp.clone()), Ok(()));
    let block = &chain.shard(0).unwrap()[1];
    assert_eq!(block.timestamp, stamp);
    assert_eq!(
        block.hash,
        Block::calculate_hash(1, &stamp, &block.transactions, &block.previous_hash, Some(0))
    );
}

#[test]
fn batch_signature_check_fails_on_any_bad_transaction() {
    let key = alice_key();
    let chain = chain_with_alice();
    let good = signed(&key, transaction("Alice", Token::CustodyToken(5), 1, 10));
    let bad = Transaction { nonce: 2, ..good.clone() };
    assert!(chain.batch_verify_signatures(&vec![good.clone()]));
    assert!(chain.batch_verify_signatures(&vec![]));
    assert!(!chain.batch_verify_signatures(&vec![good.clone(), bad.clone()]));
    assert!(!chain.batch_verify_signatures(&vec![bad, good]));
}

#[test]
fn validators_are_recorded() {
    let mut chain = Blockchain::new().unwrap();
    chain.register_validator("Val".to_string(), 40);
    assert_eq!(chain.validators, vec!["Val".to_string()]);
    assert_eq!(chain.stakes.len(), 1);
    assert_eq!(chain.stakes[0].stake, 40);
    assert_eq!(chain.stakes[0].identity, "Val");
}

#[test]
fn token_amount_reads_both_kinds() {
    assert_eq!(Token::CustodyToken(3).amount(), 3);
    assert_eq!(Token::EnergyToken(8).amount(), 8);
}

#[test]
fn replay_is_reported_before_invalid_transaction() {
    let key = alice_key();
    let mut chain = chain_with_alice();
    let first = signed(&key, transaction("Alice", Token::CustodyToken(5), 1, 10));
    assert_eq!(chain.add_block(vec![first.clone()], 0), Ok(()));
    let zero_gas = signed(&key, transaction("Alice", Token::CustodyToken(5), 2, 0));
    assert_eq!(
        chain.add_block(vec![zero_gas.clone(), first], 0),
        Err(AdmissionError::ReplayedNonce)
    );
    let zero_amount = signed(&key, transaction("Alice", Token::EnergyToken(0), 3, 10));
    let repeat = signed(&key, transaction("Alice", Token::CustodyToken(9), 3, 10));
    assert_eq!(
        chain.add_block(vec![zero_amount, repeat], 1),
        Err(AdmissionError::ReplayedNonce)
    );
    assert_eq!(chain.add_block(vec![zero_gas], 0), Err(AdmissionError::InvalidTransaction));
    assert_eq!(chain.used_nonces.len(), 1);
    assert_eq!(chain.shard(0).unwrap().len(), 2);
    assert_eq!(chain.shard(1).unwrap().len(), 1);
}

#[test]
fn replay_and_validity_checks_read_whole_batch() {
    let mut chain = Blockchain::new().unwrap();
    assert!(chain.validate_nonce(7));
    let a = transaction("A", Token::CustodyToken(1), 1, 1);
    let b = transaction("A", Token::CustodyToken(1), 2, 0);
    let c = transaction("A", Token::CustodyToken(1), 7, 1);
    let d = transaction("A", Token::CustodyToken(1), 1, 1);
    assert!(chain.check_nonces(&vec![a.clone(), b.clone()]));
    assert!(!chain.check_nonces(&vec![a.clone(), c]));
    assert!(!chain.check_nonces(&vec![a.clone(), b.clone(), d]));
    assert!(chain.check_nonces(&vec![]));
    assert!(chain.check_validity(&vec![a.clone()]));
    assert!(!chain.check_validity(&vec![a, b]));
}

#[test]
fn current_timestamp_reads_the_clock() {
    let stamp = crawchain::model::current_timestamp().unwrap();
    assert!(stamp.starts_with("20"));
    assert!(stamp.ends_with("+00:00"));
    let block = Block::new(4, vec![], "x".to_string(), None).unwrap();
    assert_eq!(block.index, 4);
    assert_eq!(
        block.hash,
        Block::calculate_hash(4, &block.timestamp, &vec![], "x", None)
    );
}

#[test]
fn registry_grows_by_distinct_nonces() {
    let key = alice_key();
    let mut chain = chain_with_alice();
    assert!(chain.validate_nonce(50));
    let a = signed(&key, transaction("Alice", Token::CustodyToken(5), 1, 10));
    let b = signed(&key, transaction("Alice", Token::CustodyToken(5), 2, 10));
    assert_eq!(chain.add_block(vec![a, b], 0), Ok(()));
    assert_eq!(chain.used_nonces.len(), 3);
    assert_eq!(chain.refusal_of(&vec![], 5), Some(AdmissionError::InvalidShard));
    assert_eq!(chain.refusal_of(&vec![], 1), None);
    assert_ne!(AdmissionError::ExecutionFailed, AdmissionError::ClockUnavailable);
}
