use minichain::block::Block;
use minichain::blockchain::Blockchain;
use minichain::transaction::Transaction;
use minichain::wallet::Wallet;

fn signed_transfer(wallet: &Wallet, recipient: &str, amount: u64) -> Transaction {
    let mut tx = Transaction::new(
        wallet.get_address().to_string(),
        recipient.to_string(),
        amount,
    );
    let key = wallet.to_signing_key().unwrap();
    let ok = tx.sign(&key, wallet.get_address().to_string());
    assert!(ok);
    tx
}

#[test]
fn fresh_chain_is_valid() {
    let bc = Blockchain::new(2);
    assert_eq!(bc.chain.len(), 1);
    assert_eq!(bc.chain[0].previous_hash, "0");
    assert_eq!(bc.chain[0].index, 0);
    assert!(bc.pending_transactions.is_empty());
    assert_eq!(bc.mining_reward, 100);
    assert!(bc.is_chain_valid());
}

#[test]
fn mining_with_empty_pending_is_a_noop() {
    let mut bc = Blockchain::new(1);
    let mined = bc.mine_pending_transactions("miner".to_string());
    assert!(!mined);
    assert_eq!(bc.chain.len(), 1);
}

#[test]
fn mined_block_meets_difficulty_and_hash() {
    let mut block = Block::new(3, "abc".to_string(), Vec::new());
    let found = block.mine_block(2);
    assert!(found);
    assert_eq!(block.hash, block.calculate_hash());
    assert!(block.hash.starts_with("00"));
    assert_eq!(block.hash.len(), 64);
}

#[test]
fn add_transaction_rejects_invalid() {
    let mut bc = Blockchain::new(1);
    let wallet = Wallet::new();
    let unsigned = Transaction::new(wallet.get_address().to_string(), "bob".to_string(), 5);
    assert!(!bc.add_transaction(unsigned));
    assert!(bc.pending_transactions.is_empty());
}

#[test]
fn add_transaction_accepts_valid_without_balance_check() {
    // The ledger-level gate checks well-formedness only; economic
    // sufficiency belongs to the session boundary.
    let mut bc = Blockchain::new(1);
    let wallet = Wallet::new();
    let tx = signed_transfer(&wallet, "bob", 5);
    assert!(bc.add_transaction(tx));
    assert_eq!(bc.pending_transactions.len(), 1);
}

#[test]
fn mining_pays_reward_and_orders_records() {
    let mut bc = Blockchain::new(1);
    let funder = Wallet::new();
    let miner = Wallet::new();
    let tx = signed_transfer(&funder, "zoe", 1);
    assert!(bc.add_transaction(tx));
    let mined = bc.mine_pending_transactions(miner.get_address().to_string());
    assert!(mined);
    assert_eq!(bc.chain.len(), 2);
    assert!(bc.pending_transactions.is_empty());
    let block = &bc.chain[1];
    assert_eq!(block.index, 1);
    assert_eq!(block.transactions.len(), 2);
    assert_eq!(block.transactions[0].sender, "coinbase_reward");
    assert_eq!(block.transactions[0].recipient, miner.get_address());
    assert_eq!(block.transactions[0].amount, 100);
    assert_eq!(block.transactions[0].signature, "UNSIGNED_COINBASE_TX");
    assert_eq!(block.transactions[1].sender, funder.get_address());
    assert_eq!(block.previous_hash, bc.chain[0].hash);
    assert!(bc.is_chain_valid());
    assert_eq!(bc.get_balance_of_address(miner.get_address()), 100);
    // The funder held nothing: the replay saturates at zero while the
    // recipient is still credited.
    assert_eq!(bc.get_balance_of_address(funder.get_address()), 0);
    assert_eq!(bc.get_balance_of_address("zoe"), 1);
}

#[test]
fn balance_round_trip_over_two_blocks() {
    let mut bc = Blockchain::new(1);
    let a = Wallet::new();
    let b = Wallet::new();
    let miner = Wallet::new();
    let funding = signed_transfer(&miner, "elsewhere", 1);
    assert!(bc.add_transaction(funding));
    assert!(bc.mine_pending_transactions(a.get_address().to_string()));
    assert_eq!(bc.get_balance_of_address(a.get_address()), 100);
    let transfer = signed_transfer(&a, b.get_address(), 40);
    assert!(bc.add_transaction(transfer));
    assert!(bc.mine_pending_transactions(miner.get_address().to_string()));
    assert_eq!(bc.get_balance_of_address(a.get_address()), 60);
    assert_eq!(bc.get_balance_of_address(b.get_address()), 40);
    assert!(bc.is_chain_valid());
}

#[test]
fn repeated_mining_keeps_chain_valid() {
    let mut bc = Blockchain::new(1);
    let wallet = Wallet::new();
    for _ in 0..3 {
        let tx = signed_transfer(&wallet, "bob", 1);
        assert!(bc.add_transaction(tx));
        assert!(bc.mine_pending_transactions(wallet.get_address().to_string()));
        assert!(bc.is_chain_valid());
    }
    assert_eq!(bc.chain.len(), 4);
}

#[test]
fn tampered_amount_invalidates_chain() {
    let mut bc = Blockchain::new(1);
    let wallet = Wallet::new();
    let tx = signed_transfer(&wallet, "bob", 2);
    assert!(bc.add_transaction(tx));
    assert!(bc.mine_pending_transactions(wallet.get_address().to_string()));
    assert!(bc.is_chain_valid());
    bc.chain[1].transactions[1].amount = 9999;
    assert!(!bc.is_chain_valid());
}

#[test]
fn tampered_amount_with_recomputed_hash_still_invalid() {
    // Recomputing the stored hash after tampering repairs the hash check
    // but breaks the signature of the altered record (and, without
    // re-mining, the difficulty target).
    let mut bc = Blockchain::new(2);
    let wallet = Wallet::new();
    let tx = signed_transfer(&wallet, "bob", 2);
    assert!(bc.add_transaction(tx));
    assert!(bc.mine_pending_transactions(wallet.get_address().to_string()));
    bc.chain[1].transactions[1].amount = 9999;
    bc.chain[1].hash = bc.chain[1].calculate_hash();
    assert!(!bc.is_chain_valid());
}

#[test]
fn tampered_stored_hash_invalidates_chain() {
    let mut bc = Blockchain::new(1);
    let wallet = Wallet::new();
    let tx = signed_transfer(&wallet, "bob", 2);
    assert!(bc.add_transaction(tx));
    assert!(bc.mine_pending_transactions(wallet.get_address().to_string()));
    bc.chain[1].hash = "1".repeat(64);
    assert!(!bc.is_chain_valid());
}

#[test]
fn tampered_previous_hash_invalidates_chain() {
    let mut bc = Blockchain::new(1);
    let wallet = Wallet::new();
    let tx = signed_transfer(&wallet, "bob", 2);
    assert!(bc.add_transaction(tx));
    assert!(bc.mine_pending_transactions(wallet.get_address().to_string()));
    bc.chain[1].previous_hash = "1".repeat(64);
    assert!(!bc.is_chain_valid());
}

#[test]
fn tampered_signature_invalidates_chain() {
    let mut bc = Blockchain::new(1);
    let wallet = Wallet::new();
    let tx = signed_transfer(&wallet, "bob", 2);
    assert!(bc.add_transaction(tx));
    assert!(bc.mine_pending_transactions(wallet.get_address().to_string()));
    bc.chain[1].transactions[1].signature = "INVALID_SIGNATURE".to_string();
    bc.chain[1].hash = bc.chain[1].calculate_hash();
    assert!(!bc.is_chain_valid());
}

#[test]
fn unknown_address_balance_is_zero() {
    let bc = Blockchain::new(1);
    assert_eq!(bc.get_balance_of_address("nobody"), 0);
}

#[test]
fn latest_block_is_chain_tail() {
    let mut bc = Blockchain::new(1);
    let wallet = Wallet::new();
    let tx = signed_transfer(&wallet, "bob", 2);
    assert!(bc.add_transaction(tx));
    assert!(bc.mine_pending_transactions(wallet.get_address().to_string()));
    let latest = bc.get_latest_block().unwrap();
    assert_eq!(latest.index, 1);
    assert_eq!(latest.hash, bc.chain[1].hash);
}

#[test]
fn wallet_fields_are_coherent() {
    let wallet = Wallet::new();
    assert_eq!(wallet.private_key_hex.len(), 64);
    assert_eq!(wallet.address.len(), 66);
    assert_eq!(wallet.get_address(), wallet.address);
    assert_eq!(wallet.get_private_key_hex(), wallet.private_key_hex);
    let sk = wallet.to_signing_key().unwrap();
    assert_eq!(sk.len(), 32);
    let pk = wallet.to_verifying_key().unwrap();
    assert_eq!(pk.len(), 33);
    assert_eq!(hex::encode(&sk), wallet.private_key_hex);
    assert_eq!(hex::encode(&pk), wallet.address);
}

#[test]
fn distinct_wallets_have_distinct_addresses() {
    let w1 = Wallet::new();
    let w2 = Wallet::new();
    assert_ne!(w1.get_address(), w2.get_address());
}
