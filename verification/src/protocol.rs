//! The request/response value model of the wire protocol, and the
//! session boundary's whole decision logic: one request in, one ledger
//! operation, one response out.

use vstd::prelude::*;

use crate::blockchain::{chain_balance, mined_block_ok, mining_exhausted, Blockchain};
use crate::transaction::{coinbase_sender, tx_valid, Transaction};
use crate::wallet::{wallet_wf, Wallet};

verus! {

/// One client request: exactly one ledger operation.
pub enum Request {
    AddTransaction(Transaction),
    MineBlock(String),
    GetBalance(String),
    GetChain,
    GenerateWallet,
}

/// One server response.
pub enum Response {
    Success(String),
    Blockchain(Blockchain),
    Balance(u64),
    Wallet(Wallet),
    Error(String),
}

/// Decide one request against the ledger. A submitted transfer first
/// passes the balance-sufficiency gate (the economic check that the
/// ledger's own well-formedness gate deliberately omits), then the
/// ledger's own validation; mining, balance and chain queries and wallet
/// generation delegate to the ledger and the wallet generator.
pub fn handle_request(bc: &mut Blockchain, request: Request) -> (resp: Response)
    requires
        old(bc)@.chain.len() >= 1,
    ensures
        final(bc)@.chain.len() >= 1,
        (old(bc)@.wf() && (request matches Request::MineBlock(m) ==> m@.len() > 0))
            ==> final(bc)@.wf(),
        request matches Request::GetBalance(a) ==> final(bc)@ == old(bc)@ && (resp matches
            Response::Balance(v) && v == chain_balance(old(bc)@.chain, a@)),
        request matches Request::GetChain ==> final(bc)@ == old(bc)@ && (resp matches
            Response::Blockchain(c) && c@ == old(bc)@),
        request matches Request::GenerateWallet ==> final(bc)@ == old(bc)@ && (resp matches
            Response::Wallet(w) && wallet_wf(w@)),
        request matches Request::AddTransaction(t) ==> {
            if chain_balance(old(bc)@.chain, t@.sender) < t@.amount {
                final(bc)@ == old(bc)@ && resp matches Response::Error(_)
            } else if tx_valid(t@) && (t@.sender == coinbase_sender() || t@.signature.len() > 0) {
                &&& final(bc)@.pending == old(bc)@.pending.push(t@)
                &&& final(bc)@.chain == old(bc)@.chain
                &&& final(bc)@.difficulty == old(bc)@.difficulty
                &&& final(bc)@.mining_reward == old(bc)@.mining_reward
                &&& resp matches Response::Success(_)
            } else {
                final(bc)@ == old(bc)@ && resp matches Response::Error(_)
            }
        },
        request matches Request::MineBlock(m) ==> {
            &&& resp matches Response::Success(_)
            &&& (final(bc)@ == old(bc)@ ==> old(bc)@.pending.len() == 0 || mining_exhausted(
                old(bc)@,
                m@,
            ))
            &&& (final(bc)@ == old(bc)@ || {
                &&& old(bc)@.pending.len() > 0
                &&& final(bc)@.pending.len() == 0
                &&& final(bc)@.chain.len() == old(bc)@.chain.len() + 1
                &&& forall|i: int|
                    0 <= i < old(bc)@.chain.len() ==> final(bc)@.chain[i] == old(bc)@.chain[i]
                &&& mined_block_ok(
                    final(bc)@.chain.last(),
                    old(bc)@.chain.last(),
                    old(bc)@.chain.len() as int,
                    old(bc)@.pending,
                    m@,
                    old(bc)@.mining_reward,
                    old(bc)@.difficulty as int,
                )
            })
        },
{
    match request {
        Request::AddTransaction(tx) => {
            let balance = bc.get_balance_of_address(tx.sender.as_str());
            if balance < tx.amount {
                Response::Error("insufficient balance for sender".to_owned())
            } else {
                let accepted = bc.add_transaction(tx);
                if accepted {
                    Response::Success("transaction added to the pending pool".to_owned())
                } else {
                    Response::Error("invalid transaction rejected".to_owned())
                }
            }
        },
        Request::MineBlock(miner_address) => {
            let mined = bc.mine_pending_transactions(miner_address);
            if mined {
                Response::Success("new block mined and appended".to_owned())
            } else {
                Response::Success("no pending transactions to mine".to_owned())
            }
        },
        Request::GetBalance(address) => {
            let balance = bc.get_balance_of_address(address.as_str());
            Response::Balance(balance)
        },
        Request::GetChain => {
            let snapshot = bc.clone();
            Response::Blockchain(snapshot)
        },
        Request::GenerateWallet => {
            let wallet = Wallet::new();
            Response::Wallet(wallet)
        },
    }
}

} // verus!
