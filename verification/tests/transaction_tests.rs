use minichain::transaction::Transaction;
use minichain::wallet::Wallet;

fn fixed_tx() -> Transaction {
    Transaction {
        sender: "alice".to_string(),
        recipient: "bob".to_string(),
        amount: 10,
        timestamp: 1000000,
        public_key: String::new(),
        signature: String::new(),
    }
}

fn signed_transfer(wallet: &Wallet, recipient: &str, amount: u64) -> Transaction {
    let mut tx = Transaction::new(
        wallet.get_address().to_string(),
        recipient.to_string(),
        amount,
    );
    let key = wallet.to_signing_key().unwrap();
    let ok = tx.sign(&key, wallet.get_address().to_string());
    assert!(ok);
    tx
}

fn with_flipped_char(s: &str, i: usize) -> String {
    let mut bytes: Vec<u8> = s.as_bytes().to_vec();
    bytes[i] = if bytes[i] == b'0' { b'1' } else { b'0' };
    String::from_utf8(bytes).unwrap()
}

#[test]
fn signing_hash_known_vector() {
    let tx = fixed_tx();
    assert_eq!(
        tx.calculate_hash_for_signing(),
        "e6c842cdc381a85669add8bccf92e3ab665062efb6cab2799ff2ef760f9e7a49"
    );
}

#[test]
fn signing_hash_is_pure() {
    let tx1 = fixed_tx();
    let tx2 = fixed_tx();
    assert_eq!(tx1.calculate_hash_for_signing(), tx2.calculate_hash_for_signing());
}

#[test]
fn signing_hash_changes_with_each_field() {
    let base = fixed_tx().calculate_hash_for_signing();
    let mut tx = fixed_tx();
    tx.sender = "alicia".to_string();
    assert_ne!(tx.calculate_hash_for_signing(), base);
    let mut tx = fixed_tx();
    tx.recipient = "carol".to_string();
    assert_ne!(tx.calculate_hash_for_signing(), base);
    let mut tx = fixed_tx();
    tx.amount = 11;
    assert_eq!(
        tx.calculate_hash_for_signing(),
        "dccf19bff14450bf2939914f164c5cb3cd9a66913a4f120cf0eee7ae6dc3482a"
    );
    assert_ne!(tx.calculate_hash_for_signing(), base);
    let mut tx = fixed_tx();
    tx.timestamp = 1000001;
    assert_ne!(tx.calculate_hash_for_signing(), base);
}

#[test]
fn signed_transaction_is_valid() {
    let wallet = Wallet::new();
    let tx = signed_transfer(&wallet, "bob", 5);
    assert!(tx.is_valid());
}

#[test]
fn flipping_any_signature_char_invalidates() {
    let wallet = Wallet::new();
    let tx = signed_transfer(&wallet, "bob", 5);
    assert!(tx.is_valid());
    let sig = tx.signature.clone();
    for i in 0..sig.len() {
        let mut tampered = tx.clone();
        tampered.signature = with_flipped_char(&sig, i);
        assert!(!tampered.is_valid(), "flipped signature char {} still valid", i);
    }
}

#[test]
fn flipping_any_public_key_char_invalidates() {
    let wallet = Wallet::new();
    let tx = signed_transfer(&wallet, "bob", 5);
    let pk = tx.public_key.clone();
    for i in 0..pk.len() {
        let mut tampered = tx.clone();
        tampered.public_key = with_flipped_char(&pk, i);
        assert!(!tampered.is_valid(), "flipped public key char {} still valid", i);
    }
}

#[test]
fn sender_public_key_mismatch_is_invalid() {
    let wallet = Wallet::new();
    let other = Wallet::new();
    let mut tx = signed_transfer(&wallet, "bob", 5);
    tx.sender = other.get_address().to_string();
    assert!(!tx.is_valid());
}

#[test]
fn unsigned_transaction_is_invalid() {
    let wallet = Wallet::new();
    let tx = Transaction::new(wallet.get_address().to_string(), "bob".to_string(), 5);
    assert!(!tx.is_valid());
}

#[test]
fn zero_amount_transfer_is_invalid() {
    let wallet = Wallet::new();
    let tx = signed_transfer(&wallet, "bob", 0);
    assert!(!tx.is_valid());
}

#[test]
fn empty_recipient_transfer_is_invalid() {
    let wallet = Wallet::new();
    let tx = signed_transfer(&wallet, "", 5);
    assert!(!tx.is_valid());
}

#[test]
fn non_hex_signature_is_invalid() {
    let wallet = Wallet::new();
    let mut tx = signed_transfer(&wallet, "bob", 5);
    tx.signature = "zz".repeat(64);
    assert!(!tx.is_valid());
}

#[test]
fn wrong_length_signature_is_invalid() {
    let wallet = Wallet::new();
    let mut tx = signed_transfer(&wallet, "bob", 5);
    tx.signature = tx.signature[..64].to_string();
    assert!(!tx.is_valid());
}

#[test]
fn coinbase_transaction_lifecycle() {
    let mut tx = Transaction::new("coinbase_reward".to_string(), "miner".to_string(), 100);
    let empty_key: Vec<u8> = Vec::new();
    let ok = tx.sign(&empty_key, "miner".to_string());
    assert!(ok);
    assert_eq!(tx.signature, "UNSIGNED_COINBASE_TX");
    assert_eq!(tx.public_key, "miner");
    assert!(tx.is_valid());
}

#[test]
fn coinbase_without_sentinel_signature_is_invalid() {
    let tx = Transaction::new("coinbase_reward".to_string(), "miner".to_string(), 100);
    assert!(!tx.is_valid());
}

#[test]
fn coinbase_zero_amount_is_invalid() {
    let mut tx = Transaction::new("coinbase_reward".to_string(), "miner".to_string(), 0);
    let empty_key: Vec<u8> = Vec::new();
    tx.sign(&empty_key, "miner".to_string());
    assert!(!tx.is_valid());
}

#[test]
fn coinbase_empty_recipient_is_invalid() {
    let mut tx = Transaction::new("coinbase_reward".to_string(), String::new(), 100);
    let empty_key: Vec<u8> = Vec::new();
    tx.sign(&empty_key, String::new());
    assert!(!tx.is_valid());
}
