use rust_chains::chain::{
    check_blockchain, verify_chain_twice, AppendRejected, Block, Blockchain, ChainStatus,
};

fn three_block_ledger() -> Blockchain {
    let mut blockchain = Blockchain::new(1_000);
    blockchain.mine("Block 1".to_string(), 1_001).unwrap();
    blockchain.mine("Block 2".to_string(), 1_002).unwrap();
    blockchain
}

#[test]
fn genesis_ledger_is_valid() {
    let blockchain = Blockchain::new(1_000);
    assert_eq!(blockchain.blocks.len(), 1);
    assert_eq!(blockchain.blocks[0].index, 0);
    assert_eq!(blockchain.blocks[0].previous_hash, "");
    assert_eq!(blockchain.blocks[0].data, "Genesis block");
    assert_eq!(blockchain.blocks[0].timestamp, 1_000);
    assert!(blockchain.is_valid());
    assert_eq!(blockchain.validate(), ChainStatus::Valid);
}

#[test]
fn append_grows_chain_and_stays_valid() {
    let mut blockchain = Blockchain::new(1_000);
    for step in 0..5u32 {
        let n = blockchain.blocks.len();
        let r = blockchain.mine(format!("payload {}", step), 2_000 + step as u128);
        assert_eq!(r, Ok(()));
        assert_eq!(blockchain.blocks.len(), n + 1);
        assert!(blockchain.is_valid());
    }
    assert_eq!(blockchain.blocks.len(), 6);
}

#[test]
fn appended_blocks_are_linked() {
    let blockchain = three_block_ledger();
    for i in 1..blockchain.blocks.len() {
        assert_eq!(
            blockchain.blocks[i].previous_hash,
            blockchain.blocks[i - 1].hash
        );
        assert_eq!(blockchain.blocks[i].index, i);
    }
}

#[test]
fn tampered_payload_is_detected_at_its_index() {
    let mut blockchain = three_block_ledger();
    assert!(blockchain.is_valid());
    blockchain.blocks[1].data = "Changed data on block 1".to_string();
    assert!(!blockchain.is_valid());
    assert_eq!(blockchain.validate(), ChainStatus::BlockTampered { index: 1 });
    assert!(!check_blockchain(&blockchain));
}

#[test]
fn resigning_tampered_block_breaks_linkage_instead() {
    let mut blockchain = three_block_ledger();
    blockchain.blocks[1].data = "Changed data and hash".to_string();
    blockchain.blocks[1].hash = blockchain.blocks[1].sign();
    // the forged block is self-consistent again ...
    assert!(blockchain.blocks[1].is_valid());
    // ... but its successor no longer stores its fingerprint
    assert_eq!(
        blockchain.validate(),
        ChainStatus::LinkBroken { index: 2, previous_index: 1 }
    );
    assert!(!blockchain.is_valid());
    assert_ne!(blockchain.blocks[2].previous_hash, blockchain.blocks[1].hash);
}

#[test]
fn tampered_seal_is_detected_and_append_reseals() {
    let mut blockchain = three_block_ledger();
    blockchain.hash = "0000000000000000".to_string();
    assert_eq!(blockchain.validate(), ChainStatus::SealMismatch);
    assert!(!blockchain.is_valid());
    // the blocks themselves are untouched, so an append recomputes the seal
    // and succeeds
    let r = blockchain.mine("after reseal".to_string(), 1_003);
    assert_eq!(r, Ok(()));
    assert!(blockchain.is_valid());
}

#[test]
fn rejected_append_leaves_no_trace() {
    let mut blockchain = three_block_ledger();
    blockchain.blocks[1].data = "tampered".to_string();
    let length = blockchain.blocks.len();
    let timestamp = blockchain.timestamp;
    let seal = blockchain.hash.clone();
    let hashes: Vec<String> = blockchain.blocks.iter().map(|b| b.hash.clone()).collect();
    let r = blockchain.mine("will be rejected".to_string(), 9_999);
    assert_eq!(r, Err(AppendRejected));
    assert_eq!(blockchain.blocks.len(), length);
    assert_eq!(blockchain.timestamp, timestamp);
    assert_eq!(blockchain.hash, seal);
    for (i, h) in hashes.iter().enumerate() {
        assert_eq!(&blockchain.blocks[i].hash, h);
    }
}

#[test]
fn unsigned_block_is_rejected_by_add_block() {
    let mut blockchain = Blockchain::new(1_000);
    let bogus = Block {
        index: 1,
        timestamp: 1_001,
        data: "never signed".to_string(),
        previous_hash: blockchain.blocks[0].hash.clone(),
        hash: String::new(),
    };
    let r = blockchain.add_block(bogus);
    assert_eq!(r, Err(AppendRejected));
    assert_eq!(blockchain.blocks.len(), 1);
    assert!(blockchain.is_valid());
}

#[test]
fn signed_and_linked_block_is_accepted_by_add_block() {
    let mut blockchain = Blockchain::new(1_000);
    let mut block = Block {
        index: 1,
        timestamp: 1_001,
        data: "hand-built".to_string(),
        previous_hash: blockchain.blocks[0].hash.clone(),
        hash: String::new(),
    };
    block.hash = block.sign();
    let r = blockchain.add_block(block);
    assert_eq!(r, Ok(()));
    assert_eq!(blockchain.blocks.len(), 2);
    assert_eq!(blockchain.timestamp, 1_001);
    assert!(blockchain.is_valid());
}

#[test]
fn verification_is_idempotent() {
    let blockchain = three_block_ledger();
    let seal = blockchain.hash.clone();
    let first = blockchain.is_valid();
    let second = blockchain.is_valid();
    let third = blockchain.is_valid();
    assert!(first && second && third);
    assert_eq!(blockchain.blocks.len(), 3);
    assert_eq!(blockchain.hash, seal);
    assert_eq!(blockchain.validate(), ChainStatus::Valid);
    assert_eq!(blockchain.validate(), ChainStatus::Valid);
}

#[test]
fn repeated_verification_agrees_on_any_ledger() {
    let mut blockchain = three_block_ledger();
    assert_eq!(verify_chain_twice(&blockchain), (true, true));
    blockchain.blocks[1].data = "tampered".to_string();
    assert_eq!(verify_chain_twice(&blockchain), (false, false));
}

#[test]
fn last_block_is_the_tail() {
    let blockchain = three_block_ledger();
    let last = blockchain.last_block().unwrap();
    assert_eq!(last.index, 2);
    assert_eq!(last.data, "Block 2");
    assert_eq!(last.hash, blockchain.blocks[2].hash);
}

#[test]
fn fingerprints_are_fixed_width_hexadecimal() {
    let blockchain = three_block_ledger();
    for block in &blockchain.blocks {
        assert_eq!(block.hash.len(), 16);
        assert!(block.hash.chars().all(|c| c.is_ascii_hexdigit()));
    }
    assert_eq!(blockchain.hash.len(), 16);
}
