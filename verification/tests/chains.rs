use powledger::clock::unix_seconds;
use powledger::Block;
use powledger::Blockchain;
use powledger::LedgerError;
use powledger::Transaction;

const GENESIS_HASH: &str = "b117605a46c1bb9ccfb6c7c789290e97fd7fcfb5ce96bda1b2e5722dad24534b";

fn tx(sender: &str, recipient: &str, amount: u32) -> Transaction {
    Transaction::new(sender.to_string(), recipient.to_string(), amount)
}

fn three_blocks_at(difficulty: usize) -> Blockchain {
    let mut c = Blockchain::with_genesis_at(difficulty, 1700000000).unwrap();
    assert_eq!(c.add_block_at(vec![tx("Purvesh", "Jenish", 50)], 1700000001), Ok(()));
    assert_eq!(c.add_block_at(vec![tx("Jenish", "Dharmik", 30)], 1700000002), Ok(()));
    assert_eq!(c.add_block_at(vec![tx("Dharmik", "Uttam", 20)], 1700000003), Ok(()));
    c
}

#[test]
fn new_chain_holds_an_unmined_genesis_block() {
    let c = Blockchain::with_genesis_at(2, 1700000000).unwrap();
    assert_eq!(c.difficulty, 2);
    assert_eq!(c.chain.len(), 1);
    let g = &c.chain[0];
    assert_eq!(g.index, 0);
    assert_eq!(g.timestamp, 1700000000);
    assert!(g.transactions.is_empty());
    assert_eq!(g.prev_hash, "0");
    assert_eq!(g.nonce, 0);
    assert_eq!(g.hash, GENESIS_HASH);
    assert_eq!(g.hash, g.calculate_hash());
    assert!(!g.hash.starts_with("00"));
    assert!(c.validate_chain());
}

#[test]
fn new_chain_reads_the_clock() {
    let before = unix_seconds().unwrap();
    let c = Blockchain::new(1).unwrap();
    let after = unix_seconds().unwrap();
    assert_eq!(c.difficulty, 1);
    assert_eq!(c.chain.len(), 1);
    assert!(before <= c.chain[0].timestamp && c.chain[0].timestamp <= after);
    assert!(before > 1_600_000_000);
    assert_eq!(c.chain[0].index, 0);
    assert_eq!(c.chain[0].prev_hash, "0");
    assert_eq!(c.chain[0].hash, c.chain[0].calculate_hash());
}

#[test]
fn difficulty_above_hash_length_is_refused_at_construction() {
    assert_eq!(Blockchain::new(65).err(), Some(LedgerError::Configuration));
    assert_eq!(Blockchain::with_genesis_at(65, 1).err(), Some(LedgerError::Configuration));
    assert_eq!(
        Blockchain::with_genesis_at(usize::MAX, 1).err(),
        Some(LedgerError::Configuration)
    );
    assert!(Blockchain::with_genesis_at(64, 1).is_ok());
    assert!(Blockchain::with_genesis_at(0, 1).is_ok());
}

#[test]
fn appended_blocks_are_mined_and_linked() {
    let c = three_blocks_at(2);
    assert_eq!(c.chain.len(), 4);
    let expected = [
        (0u32, GENESIS_HASH),
        (386, "0046fa0ac21d4dd2584ddf14368f2e9e74f1aad0b21b297ca3e46fedcc1327ff"),
        (105, "00831672eb06ca6ca42990005cda0bf3613bed0b7127e4b742444e6cb9504d47"),
        (162, "00fb8cabb45805dcaff6602e7d3fa7615701c38050974ea0ec8d0907d70659fd"),
    ];
    for i in 0..4 {
        assert_eq!(c.chain[i].index as usize, i);
        assert_eq!(c.chain[i].timestamp, 1700000000 + i as u64);
        assert_eq!(c.chain[i].nonce, expected[i].0);
        assert_eq!(c.chain[i].hash, expected[i].1);
        assert_eq!(c.chain[i].hash, c.chain[i].calculate_hash());
        if i > 0 {
            assert_eq!(c.chain[i].prev_hash, c.chain[i - 1].hash);
            assert!(c.chain[i].hash.starts_with("00"));
        }
    }
    assert_eq!(c.chain[1].transactions, vec![tx("Purvesh", "Jenish", 50)]);
    assert_eq!(c.chain[3].transactions, vec![tx("Dharmik", "Uttam", 20)]);
}

#[test]
fn fresh_chains_validate_at_every_length() {
    let mut c = Blockchain::with_genesis_at(1, 1700000000).unwrap();
    assert!(c.validate_chain());
    for n in 1..8u32 {
        assert_eq!(c.add_block_at(vec![tx("a", "b", n)], 1700000000 + n as u64), Ok(()));
        assert_eq!(c.chain.len(), n as usize + 1);
        assert!(c.validate_chain());
    }
}

#[test]
fn add_block_stamps_the_current_time() {
    let mut c = Blockchain::new(1).unwrap();
    let before = unix_seconds().unwrap();
    assert_eq!(c.add_block(vec![tx("a", "b", 1)]), Ok(()));
    assert_eq!(c.add_block(vec![]), Ok(()));
    let after = unix_seconds().unwrap();
    assert_eq!(c.chain.len(), 3);
    for i in 1..3 {
        let b = &c.chain[i];
        assert_eq!(b.index as usize, i);
        assert!(before <= b.timestamp && b.timestamp <= after);
        assert_eq!(b.prev_hash, c.chain[i - 1].hash);
        assert!(b.hash.starts_with("0"));
        assert_eq!(b.hash, b.calculate_hash());
    }
    assert!(c.chain[2].transactions.is_empty());
    assert!(c.validate_chain());
}

#[test]
fn tampering_with_transactions_is_detected() {
    let mut c = three_blocks_at(2);
    assert!(c.validate_chain());
    let genesis_hash = c.chain[0].hash.clone();
    let second_hash = c.chain[2].hash.clone();
    let first_hash = c.chain[1].hash.clone();

    c.chain[1].transactions = vec![tx("Eve", "Charlie", 100)];

    assert!(!c.validate_chain());
    assert_eq!(c.chain[0].hash, genesis_hash);
    assert_eq!(c.chain[2].hash, second_hash);
    assert_eq!(c.chain[1].hash, first_hash);
    assert_eq!(c.chain[2].prev_hash, c.chain[1].hash);
    assert_ne!(c.chain[1].hash, c.chain[1].calculate_hash());
}

#[test]
fn tampering_with_any_hashed_field_is_detected() {
    for i in 1..4usize {
        let mut c = three_blocks_at(1);
        c.chain[i].timestamp += 1;
        assert!(!c.validate_chain());

        let mut c = three_blocks_at(1);
        c.chain[i].prev_hash = "0".to_string();
        assert!(!c.validate_chain());

        let mut c = three_blocks_at(1);
        c.chain[i].transactions[0].amount += 1;
        assert!(!c.validate_chain());

        let mut c = three_blocks_at(1);
        c.chain[i].transactions.clear();
        assert!(!c.validate_chain());

        let mut c = three_blocks_at(1);
        c.chain[i].nonce += 1;
        assert!(!c.validate_chain());

        let mut c = three_blocks_at(1);
        c.chain[i].index += 1;
        assert!(!c.validate_chain());
    }
}

#[test]
fn prev_hash_tampering_is_detected_even_when_the_hash_is_refreshed() {
    let mut c = three_blocks_at(1);
    c.chain[2].prev_hash = GENESIS_HASH.to_string();
    c.chain[2].hash = c.chain[2].calculate_hash();
    assert!(!c.validate_chain());
}

#[test]
fn refreshing_the_hash_of_a_tampered_block_breaks_the_next_link() {
    let mut c = three_blocks_at(1);
    c.chain[1].transactions = vec![tx("Eve", "Charlie", 100)];
    c.chain[1].hash = c.chain[1].calculate_hash();
    assert_ne!(c.chain[2].prev_hash, c.chain[1].hash);
    assert!(!c.validate_chain());
}

#[test]
fn genesis_block_is_not_validated() {
    let mut c = three_blocks_at(1);
    c.chain[0].timestamp = 5;
    c.chain[0].transactions = vec![tx("Eve", "Charlie", 100)];
    assert_ne!(c.chain[0].hash, c.chain[0].calculate_hash());
    assert!(c.validate_chain());
    c.chain[0].hash = c.chain[0].calculate_hash();
    assert!(!c.validate_chain());
}

#[test]
fn validation_does_not_check_the_difficulty() {
    let mut c = three_blocks_at(1);
    c.difficulty = 5;
    assert!(c.validate_chain());
    let last = c.chain[3].hash.clone();
    let block = Block::new(4, 9, vec![], last);
    assert!(!block.hash.starts_with("00000"));
    c.chain.push(block);
    assert!(c.validate_chain());
}

#[test]
fn validation_is_idempotent() {
    let mut c = three_blocks_at(1);
    let snapshot = c.chain.clone();
    assert!(c.validate_chain());
    assert!(c.validate_chain());
    assert_eq!(c.chain, snapshot);
    c.chain[2].timestamp = 0;
    let snapshot = c.chain.clone();
    assert!(!c.validate_chain());
    assert!(!c.validate_chain());
    assert_eq!(c.chain, snapshot);
}

#[test]
fn chains_of_zero_or_one_block_are_valid() {
    let empty = Blockchain { chain: vec![], difficulty: 2 };
    assert!(empty.validate_chain());
    let one = Blockchain { chain: vec![Block::new(9, 9, vec![], "zz".to_string())], difficulty: 2 };
    assert!(one.validate_chain());
}

#[test]
fn empty_chain_cannot_be_extended() {
    let mut c = Blockchain { chain: vec![], difficulty: 1 };
    assert_eq!(c.add_block_at(vec![], 1), Err(LedgerError::EmptyChain));
    assert_eq!(c.add_block(vec![]), Err(LedgerError::EmptyChain));
    assert_eq!(c.check_extendable(), Err(LedgerError::EmptyChain));
    assert!(c.chain.is_empty());
}

#[test]
fn tampered_difficulty_is_refused_before_the_chain_changes() {
    let mut c = three_blocks_at(1);
    let snapshot = c.chain.clone();
    c.difficulty = 65;
    assert_eq!(c.add_block_at(vec![tx("a", "b", 1)], 1), Err(LedgerError::Configuration));
    assert_eq!(c.add_block(vec![tx("a", "b", 1)]), Err(LedgerError::Configuration));
    assert_eq!(c.chain, snapshot);
    assert_eq!(c.difficulty, 65);
}

#[test]
fn last_index_cannot_overflow() {
    let mut c = Blockchain::with_genesis_at(1, 1700000000).unwrap();
    c.chain[0].index = u32::MAX;
    let snapshot = c.chain.clone();
    assert_eq!(c.add_block_at(vec![], 1), Err(LedgerError::IndexOverflow));
    assert_eq!(c.add_block(vec![]), Err(LedgerError::IndexOverflow));
    assert_eq!(c.chain, snapshot);
    c.chain[0].index = u32::MAX - 1;
    assert_eq!(c.check_extendable(), Ok(()));
    assert_eq!(c.add_block_at(vec![], 1), Ok(()));
    assert_eq!(c.chain[1].index, u32::MAX);
}

#[test]
fn new_block_builds_on_the_stored_hash_of_the_last_block() {
    let mut c = Blockchain::with_genesis_at(0, 1700000000).unwrap();
    c.chain[0].hash = "not a hash".to_string();
    assert_eq!(c.add_block_at(vec![], 3), Ok(()));
    assert_eq!(c.chain[1].prev_hash, "not a hash");
    assert_eq!(c.chain[1].nonce, 0);
    assert!(c.validate_chain());
}

#[test]
fn create_genesis_block_appends_a_genesis_block() {
    let mut c = Blockchain { chain: vec![], difficulty: 3 };
    c.create_genesis_block_at(1700000000);
    assert_eq!(c.chain.len(), 1);
    assert_eq!(c.chain[0], Block::new(0, 1700000000, vec![], "0".to_string()));
    assert_eq!(c.chain[0].hash, GENESIS_HASH);
    assert_eq!(c.difficulty, 3);

    assert_eq!(c.create_genesis_block(), Ok(()));
    assert_eq!(c.chain.len(), 2);
    assert_eq!(c.chain[1].index, 0);
    assert_eq!(c.chain[1].prev_hash, "0");
    assert!(c.chain[1].transactions.is_empty());
    assert_eq!(c.chain[1].nonce, 0);
    assert_eq!(c.chain[1].hash, c.chain[1].calculate_hash());
    assert!(c.chain[1].timestamp > 1_600_000_000);
}

#[test]
fn report_lists_every_block() {
    let c = {
        let mut c = Blockchain::with_genesis_at(1, 1700000000).unwrap();
        assert_eq!(c.add_block_at(vec![tx("Purvesh", "Jenish", 50)], 1700000001), Ok(()));
        c
    };
    let first = "Block #0: \n  Timestamp: 1700000000\n  Transactions: []\n  Previous Hash: 0\n  \
                 Current Hash: b117605a46c1bb9ccfb6c7c789290e97fd7fcfb5ce96bda1b2e5722dad24534b\n  \
                 Nonce: 0\n";
    let second = "Block #1: \n  Timestamp: 1700000001\n  Transactions: [Transaction { sender: \
                  \"Purvesh\", recipient: \"Jenish\", amount: 50 }]\n  Previous Hash: \
                  b117605a46c1bb9ccfb6c7c789290e97fd7fcfb5ce96bda1b2e5722dad24534b\n  Current \
                  Hash: 0dd443d70a8e6fd2426587305f3434c8493c96a8b5df6d8f7af78a9cad09f331\n  \
                  Nonce: 33\n";
    assert_eq!(c.chain[0].report(), first);
    assert_eq!(c.chain[1].report(), second);
    assert_eq!(c.report(), format!("{}\n{}\n", first, second));
    assert_eq!(Blockchain { chain: vec![], difficulty: 0 }.report(), "");
}
