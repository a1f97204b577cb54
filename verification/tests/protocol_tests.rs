use minichain::blockchain::Blockchain;
use minichain::protocol::{handle_request, Request, Response};
use minichain::transaction::Transaction;
use minichain::wallet::Wallet;

fn signed_transfer(wallet: &Wallet, recipient: &str, amount: u64) -> Transaction {
    let mut tx = Transaction::new(
        wallet.get_address().to_string(),
        recipient.to_string(),
        amount,
    );
    let key = wallet.to_signing_key().unwrap();
    let ok = tx.sign(&key, wallet.get_address().to_string());
    assert!(ok);
    tx
}

#[test]
fn get_balance_of_fresh_chain_is_zero() {
    let mut bc = Blockchain::new(1);
    let resp = handle_request(&mut bc, Request::GetBalance("nobody".to_string()));
    assert!(matches!(resp, Response::Balance(0)));
}

#[test]
fn generate_wallet_leaves_ledger_untouched() {
    let mut bc = Blockchain::new(1);
    let resp = handle_request(&mut bc, Request::GenerateWallet);
    match resp {
        Response::Wallet(w) => {
            assert_eq!(w.address.len(), 66);
        },
        other => panic!("expected a wallet response, got {:?}", response_kind(&other)),
    }
    assert_eq!(bc.chain.len(), 1);
}

#[test]
fn get_chain_returns_a_snapshot() {
    let mut bc = Blockchain::new(1);
    let resp = handle_request(&mut bc, Request::GetChain);
    match resp {
        Response::Blockchain(snapshot) => {
            assert_eq!(snapshot.chain.len(), bc.chain.len());
            assert_eq!(snapshot.chain[0].hash, bc.chain[0].hash);
            assert_eq!(snapshot.difficulty, bc.difficulty);
            assert_eq!(snapshot.mining_reward, bc.mining_reward);
        },
        other => panic!("expected a chain response, got {:?}", response_kind(&other)),
    }
}

#[test]
fn mine_block_request_with_empty_pending_reports_success_without_mining() {
    let mut bc = Blockchain::new(1);
    let resp = handle_request(&mut bc, Request::MineBlock("miner".to_string()));
    assert!(matches!(resp, Response::Success(_)));
    assert_eq!(bc.chain.len(), 1);
}

#[test]
fn full_session_scenario() {
    // Difficulty 2, reward 100. A funding record lets the first block be
    // mined; the miner then holds the reward, spends part of it, and
    // mines again.
    let mut bc = Blockchain::new(2);
    let funder = Wallet::new();
    let miner = Wallet::new();
    let x = Wallet::new();

    // The funder holds nothing, so the session gate would refuse this
    // record; the ledger-level gate accepts it directly.
    assert!(bc.add_transaction(signed_transfer(&funder, "elsewhere", 1)));

    let resp = handle_request(&mut bc, Request::MineBlock(miner.get_address().to_string()));
    assert!(matches!(resp, Response::Success(_)));
    assert_eq!(bc.chain.len(), 2);
    assert_eq!(bc.get_balance_of_address(miner.get_address()), 100);

    let transfer = signed_transfer(&miner, x.get_address(), 40);
    let resp = handle_request(&mut bc, Request::AddTransaction(transfer));
    assert!(matches!(resp, Response::Success(_)));
    assert_eq!(bc.pending_transactions.len(), 1);

    let resp = handle_request(&mut bc, Request::MineBlock(miner.get_address().to_string()));
    assert!(matches!(resp, Response::Success(_)));
    assert_eq!(bc.chain.len(), 3);
    assert_eq!(bc.get_balance_of_address(miner.get_address()), 160);
    assert_eq!(bc.get_balance_of_address(x.get_address()), 40);

    // Overspending is caught by the session-level balance gate and never
    // reaches the pending pool.
    let overspend = signed_transfer(&x, "anyone", 1000);
    let resp = handle_request(&mut bc, Request::AddTransaction(overspend));
    assert!(matches!(resp, Response::Error(_)));
    assert!(bc.pending_transactions.is_empty());

    let resp = handle_request(&mut bc, Request::GetBalance(x.get_address().to_string()));
    assert!(matches!(resp, Response::Balance(40)));
    assert!(bc.is_chain_valid());
}

#[test]
fn invalid_transaction_request_yields_error() {
    let mut bc = Blockchain::new(1);
    let unsigned = Transaction {
        sender: String::new(),
        recipient: "bob".to_string(),
        amount: 0,
        timestamp: 0,
        public_key: String::new(),
        signature: String::new(),
    };
    let resp = handle_request(&mut bc, Request::AddTransaction(unsigned));
    assert!(matches!(resp, Response::Error(_)));
    assert!(bc.pending_transactions.is_empty());
}

fn response_kind(resp: &Response) -> &'static str {
    match resp {
        Response::Success(_) => "success",
        Response::Blockchain(_) => "blockchain",
        Response::Balance(_) => "balance",
        Response::Wallet(_) => "wallet",
        Response::Error(_) => "error",
    }
}
