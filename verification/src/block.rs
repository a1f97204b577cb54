//! Blocks: an ordered batch of transactions under a proof-of-work seal.
//! The block hash is pinned to a payload specification, and the mining
//! search is verified against the difficulty predicate.

use vstd::prelude::*;
use vstd::pervasive::cloned;
use vstd::string::{StrSliceExecFns, StringExecFns};

use crate::clock::now_timestamp;
use crate::digest::{sha256_hex, sha256_hex_digest};
use crate::numfmt::{dec_str_int, dec_str_nat, i64_to_dec, u64_to_dec};
use crate::transaction::{signing_hash, Transaction, TxView};

verus! {

/// The abstract value of a block.
pub struct BlockView {
    pub index: u64,
    pub timestamp: i64,
    pub transactions: Seq<TxView>,
    pub previous_hash: Seq<char>,
    pub hash: Seq<char>,
    pub nonce: u64,
}

/// A block: header fields, the batch of transactions it seals, and the
/// stored content hash found by mining.
pub struct Block {
    pub index: u64,
    pub timestamp: i64,
    pub transactions: Vec<Transaction>,
    pub previous_hash: String,
    pub hash: String,
    pub nonce: u64,
}

impl View for Block {
    type V = BlockView;

    open spec fn view(&self) -> BlockView {
        BlockView {
            index: self.index,
            timestamp: self.timestamp,
            transactions: self.transactions.deep_view(),
            previous_hash: self.previous_hash@,
            hash: self.hash@,
            nonce: self.nonce,
        }
    }
}

impl DeepView for Block {
    type V = BlockView;

    open spec fn deep_view(&self) -> BlockView {
        self.view()
    }
}

/// The signing hashes of a batch of records, concatenated in order.
pub open spec fn tx_hashes_concat(txs: Seq<TxView>) -> Seq<char>
    decreases txs.len(),
{
    if txs.len() == 0 {
        Seq::empty()
    } else {
        signing_hash(txs.first()) + tx_hashes_concat(txs.drop_first())
    }
}

/// The text a block's hash is taken over: index, timestamp, predecessor
/// hash and nonce, then each record's signing hash in storage order. The
/// stored hash itself is not part of it.
pub open spec fn block_payload(b: BlockView) -> Seq<char> {
    dec_str_nat(b.index as nat) + dec_str_int(b.timestamp as int) + b.previous_hash + dec_str_nat(
        b.nonce as nat,
    ) + tx_hashes_concat(b.transactions)
}

/// The content hash of a block.
pub open spec fn block_hash(b: BlockView) -> Seq<char> {
    sha256_hex(block_payload(b))
}

/// The proof-of-work target: at least `d` leading `'0'` characters.
pub open spec fn meets_difficulty(h: Seq<char>, d: int) -> bool {
    h.len() >= d && forall|i: int| 0 <= i < d ==> h[i] == '0'
}

/// The same block with another nonce (the stored hash does not enter the
/// payload, so this is all a mining step may vary).
pub open spec fn with_nonce(b: BlockView, n: u64) -> BlockView {
    BlockView { nonce: n, ..b }
}

/// Whether the string starts with at least `d` zero characters.
pub fn has_leading_zeros(h: &str, d: usize) -> (r: bool)
    ensures
        r == meets_difficulty(h@, d as int),
{
    let len = h.unicode_len();
    if len < d {
        return false;
    }
    let mut i: usize = 0;
    while i < d
        invariant
            i <= d,
            d <= len,
            len == h@.len(),
            forall|j: int| 0 <= j < i ==> h@[j] == '0',
        decreases d - i,
    {
        if h.get_char(i) != '0' {
            return false;
        }
        i = i + 1;
    }
    true
}

impl Block {
    /// A fresh block over the given batch, stamped with the current time,
    /// with an empty hash and a zero nonce.
    pub fn new(index: u64, previous_hash: String, transactions: Vec<Transaction>) -> (r: Block)
        ensures
            r@.index == index,
            r@.previous_hash == previous_hash@,
            r@.transactions == transactions.deep_view(),
            r@.hash.len() == 0,
            r@.nonce == 0,
    {
        Block {
            index,
            timestamp: now_timestamp(),
            transactions,
            previous_hash,
            hash: String::new(),
            nonce: 0,
        }
    }

    /// The hex digest of the block's payload under its current fields.
    pub fn calculate_hash(&self) -> (r: String)
        ensures
            r@ == block_hash(self@),
    {
        let mut data = String::new();
        let index_str = u64_to_dec(self.index);
        data.append(index_str.as_str());
        let ts_str = i64_to_dec(self.timestamp);
        data.append(ts_str.as_str());
        data.append(self.previous_hash.as_str());
        let nonce_str = u64_to_dec(self.nonce);
        data.append(nonce_str.as_str());
        let ghost base = data@;
        let ghost txs = self@.transactions;
        proof {
            assert(txs.skip(0) =~= txs);
        }
        let mut i: usize = 0;
        while i < self.transactions.len()
            invariant
                i <= self.transactions.len(),
                txs == self@.transactions,
                txs.len() == self.transactions.len(),
                base + tx_hashes_concat(txs) =~= data@ + tx_hashes_concat(txs.skip(i as int)),
            decreases self.transactions.len() - i,
        {
            let tx_hash = self.transactions[i].calculate_hash_for_signing();
            data.append(tx_hash.as_str());
            proof {
                assert(txs.skip(i as int).drop_first() =~= txs.skip(i as int + 1));
            }
            i = i + 1;
        }
        proof {
            assert(txs.skip(txs.len() as int) =~= Seq::<TxView>::empty());
            assert(data@ =~= block_payload(self@));
        }
        sha256_hex_digest(data.as_str())
    }

    /// The proof-of-work search: recompute the hash and step the nonce
    /// until the hash meets the difficulty, walking the nonce up from its
    /// current value. Succeeds unless the whole remaining nonce range is
    /// exhausted; on success the stored hash is the block's content hash
    /// and meets the difficulty, and every skipped nonce was tried and
    /// found wanting.
    pub fn mine_block(&mut self, difficulty: usize) -> (found: bool)
        ensures
            final(self)@.index == old(self)@.index,
            final(self)@.timestamp == old(self)@.timestamp,
            final(self)@.transactions == old(self)@.transactions,
            final(self)@.previous_hash == old(self)@.previous_hash,
            final(self)@.nonce >= old(self)@.nonce,
            final(self)@.hash == block_hash(final(self)@),
            found ==> meets_difficulty(final(self)@.hash, difficulty as int),
            found ==> forall|n: u64|
                old(self)@.nonce <= n < final(self)@.nonce ==> !meets_difficulty(
                    block_hash(with_nonce(old(self)@, n)),
                    difficulty as int,
                ),
            !found ==> forall|n: u64|
                n >= old(self)@.nonce ==> !meets_difficulty(
                    block_hash(with_nonce(old(self)@, n)),
                    difficulty as int,
                ),
    {
        let h = self.calculate_hash();
        self.hash = h;
        let mut ok = has_leading_zeros(self.hash.as_str(), difficulty);
        while !ok
            invariant
                self@.index == old(self)@.index,
                self@.timestamp == old(self)@.timestamp,
                self@.transactions == old(self)@.transactions,
                self@.previous_hash == old(self)@.previous_hash,
                self@.nonce >= old(self)@.nonce,
                self@.hash == block_hash(self@),
                ok == meets_difficulty(self@.hash, difficulty as int),
                block_hash(self@) == block_hash(with_nonce(old(self)@, self@.nonce)),
                forall|n: u64|
                    old(self)@.nonce <= n < self@.nonce ==> !meets_difficulty(
                        block_hash(with_nonce(old(self)@, n)),
                        difficulty as int,
                    ),
            decreases u64::MAX - self.nonce,
        {
            if self.nonce == u64::MAX {
                return false;
            }
            self.nonce = self.nonce + 1;
            let h2 = self.calculate_hash();
            self.hash = h2;
            ok = has_leading_zeros(self.hash.as_str(), difficulty);
        }
        true
    }
}

impl Clone for Block {
    /// The copy carries the same field values.
    fn clone(&self) -> (r: Self)
        ensures
            r@ == self@,
    {
        let r = Block {
            index: self.index,
            timestamp: self.timestamp,
            transactions: self.transactions.clone(),
            previous_hash: self.previous_hash.clone(),
            hash: self.hash.clone(),
            nonce: self.nonce,
        };
        proof {
            assert forall|i: int|
                0 <= i < self.transactions@.len() implies r.transactions.deep_view()[i]
                == self.transactions.deep_view()[i] by {
                assert(cloned::<Transaction>(self.transactions[i], r.transactions[i]));
            }
            assert(r.transactions.deep_view() =~= self.transactions.deep_view());
        }
        r
    }
}

} // verus!
