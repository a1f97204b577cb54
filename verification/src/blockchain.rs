//! The ledger: an append-only chain of blocks with a pending queue, a
//! fixed difficulty and a fixed mining reward. Chain validation and
//! balance accounting are pinned to specifications over the chain's view.

use vstd::pervasive::cloned;
use vstd::prelude::*;

use crate::block::{
    block_hash, block_payload, has_leading_zeros, meets_difficulty, with_nonce, Block, BlockView,
};
use crate::text::str_eq;
use crate::transaction::{
    coinbase_sender, coinbase_signature, tx_valid, Transaction, TxView,
};

verus! {

/// The abstract value of the ledger.
pub struct ChainView {
    pub chain: Seq<BlockView>,
    pub difficulty: usize,
    pub pending: Seq<TxView>,
    pub mining_reward: u64,
}

/// The ledger. The chain owns its blocks; the pending queue holds
/// accepted records awaiting inclusion, in arrival order.
pub struct Blockchain {
    pub chain: Vec<Block>,
    pub difficulty: usize,
    pub pending_transactions: Vec<Transaction>,
    pub mining_reward: u64,
}

impl View for Blockchain {
    type V = ChainView;

    open spec fn view(&self) -> ChainView {
        ChainView {
            chain: self.chain.deep_view(),
            difficulty: self.difficulty,
            pending: self.pending_transactions.deep_view(),
            mining_reward: self.mining_reward,
        }
    }
}

/// One link of the chain: the stored hash is the block's content hash,
/// the block points at its predecessor's stored hash, the hash meets the
/// difficulty, and every record in the block validates.
pub open spec fn block_linked_valid(b: BlockView, prev: BlockView, d: int) -> bool {
    &&& b.hash == block_hash(b)
    &&& b.previous_hash == prev.hash
    &&& meets_difficulty(b.hash, d)
    &&& forall|j: int| 0 <= j < b.transactions.len() ==> tx_valid(#[trigger] b.transactions[j])
}

/// What chain validation checks: every non-genesis block links and
/// validates.
pub open spec fn chain_valid(chain: Seq<BlockView>, d: int) -> bool {
    forall|i: int|
        1 <= i < chain.len() ==> #[trigger] block_linked_valid(chain[i], chain[i - 1], d)
}

impl ChainView {
    /// The ledger's standing invariant: a genesis block exists with the
    /// sentinel predecessor hash, every block's stored index is its
    /// height, every later block links and validates, every queued
    /// record validates, and the reward is positive.
    pub open spec fn wf(self) -> bool {
        &&& self.chain.len() >= 1
        &&& self.chain[0].previous_hash == "0"@
        &&& forall|i: int| 0 <= i < self.chain.len() ==> (#[trigger] self.chain[i]).index == i
        &&& chain_valid(self.chain, self.difficulty as int)
        &&& forall|i: int| 0 <= i < self.pending.len() ==> tx_valid(#[trigger] self.pending[i])
        &&& self.mining_reward > 0
    }
}

/// A well-formed ledger passes chain validation: the invariant that
/// construction establishes and every ledger operation preserves implies
/// the validation predicate.
pub proof fn lemma_wf_chain_valid(c: ChainView)
    requires
        c.wf(),
    ensures
        chain_valid(c.chain, c.difficulty as int),
{
}

/// One record's effect on an address's balance, with saturating
/// arithmetic: the amount leaves the sender (unless the record is a
/// coinbase reward) and reaches the recipient.
pub open spec fn tx_delta(bal: u64, t: TxView, addr: Seq<char>) -> u64 {
    let after_send = if t.sender == addr && t.sender != coinbase_sender() {
        if bal >= t.amount {
            (bal - t.amount) as u64
        } else {
            0u64
        }
    } else {
        bal
    };
    if t.recipient == addr {
        if after_send + t.amount <= u64::MAX {
            (after_send + t.amount) as u64
        } else {
            u64::MAX
        }
    } else {
        after_send
    }
}

/// The balance after replaying a batch of records, in order, from a
/// starting balance.
pub open spec fn txs_balance(txs: Seq<TxView>, addr: Seq<char>, bal: u64) -> u64
    decreases txs.len(),
{
    if txs.len() == 0 {
        bal
    } else {
        txs_balance(txs.drop_first(), addr, tx_delta(bal, txs.first(), addr))
    }
}

/// The balance after replaying a chain of blocks, in order, from a
/// starting balance.
pub open spec fn chain_balance_from(chain: Seq<BlockView>, addr: Seq<char>, bal: u64) -> u64
    decreases chain.len(),
{
    if chain.len() == 0 {
        bal
    } else {
        chain_balance_from(
            chain.drop_first(),
            addr,
            txs_balance(chain.first().transactions, addr, bal),
        )
    }
}

/// The balance an address holds under a chain: the full replay from zero,
/// block order first, storage order within a block.
pub open spec fn chain_balance(chain: Seq<BlockView>, addr: Seq<char>) -> u64 {
    chain_balance_from(chain, addr, 0u64)
}

pub proof fn lemma_txs_balance_snoc(txs: Seq<TxView>, t: TxView, addr: Seq<char>, bal: u64)
    ensures
        txs_balance(txs.push(t), addr, bal) == tx_delta(txs_balance(txs, addr, bal), t, addr),
    decreases txs.len(),
{
    assert(txs_balance(txs.push(t), addr, bal) == txs_balance(
        txs.push(t).drop_first(),
        addr,
        tx_delta(bal, txs.push(t).first(), addr),
    ));
    if txs.len() == 0 {
        assert(txs.push(t).first() == t);
        assert(txs.push(t).drop_first() =~= Seq::<TxView>::empty());
        assert(txs_balance(txs.push(t).drop_first(), addr, tx_delta(bal, t, addr)) == tx_delta(
            bal,
            t,
            addr,
        ));
    } else {
        assert(txs.push(t).first() == txs.first());
        assert(txs.push(t).drop_first() =~= txs.drop_first().push(t));
        lemma_txs_balance_snoc(txs.drop_first(), t, addr, tx_delta(bal, txs.first(), addr));
    }
}

pub proof fn lemma_chain_balance_snoc(chain: Seq<BlockView>, b: BlockView, addr: Seq<char>, bal: u64)
    ensures
        chain_balance_from(chain.push(b), addr, bal) == txs_balance(
            b.transactions,
            addr,
            chain_balance_from(chain, addr, bal),
        ),
    decreases chain.len(),
{
    assert(chain_balance_from(chain.push(b), addr, bal) == chain_balance_from(
        chain.push(b).drop_first(),
        addr,
        txs_balance(chain.push(b).first().transactions, addr, bal),
    ));
    if chain.len() == 0 {
        assert(chain.push(b).first() == b);
        assert(chain.push(b).drop_first() =~= Seq::<BlockView>::empty());
        assert(chain_balance_from(
            chain.push(b).drop_first(),
            addr,
            txs_balance(b.transactions, addr, bal),
        ) == txs_balance(b.transactions, addr, bal));
    } else {
        assert(chain.push(b).first() == chain.first());
        assert(chain.push(b).drop_first() =~= chain.drop_first().push(b));
        lemma_chain_balance_snoc(
            chain.drop_first(),
            b,
            addr,
            txs_balance(chain.first().transactions, addr, bal),
        );
    }
}

/// Whether some record in the batch names the address as sender or
/// recipient.
pub open spec fn addr_in_txs(txs: Seq<TxView>, addr: Seq<char>) -> bool {
    exists|j: int|
        0 <= j < txs.len() && ((#[trigger] txs[j]).sender == addr || txs[j].recipient == addr)
}

/// Whether any record anywhere in the chain names the address.
pub open spec fn addr_in_chain(chain: Seq<BlockView>, addr: Seq<char>) -> bool {
    exists|i: int| 0 <= i < chain.len() && addr_in_txs((#[trigger] chain[i]).transactions, addr)
}

/// A batch that never names an address leaves its balance unchanged.
pub proof fn lemma_txs_balance_untouched(txs: Seq<TxView>, addr: Seq<char>, bal: u64)
    requires
        !addr_in_txs(txs, addr),
    ensures
        txs_balance(txs, addr, bal) == bal,
    decreases txs.len(),
{
    if txs.len() > 0 {
        assert(!(txs[0].sender == addr || txs[0].recipient == addr));
        assert(tx_delta(bal, txs.first(), addr) == bal);
        assert(!addr_in_txs(txs.drop_first(), addr)) by {
            if addr_in_txs(txs.drop_first(), addr) {
                let j = choose|j: int|
                    0 <= j < txs.drop_first().len() && ((#[trigger] txs.drop_first()[j]).sender
                        == addr || txs.drop_first()[j].recipient == addr);
                assert(txs.drop_first()[j] == txs[j + 1]);
                assert(addr_in_txs(txs, addr));
            }
        }
        lemma_txs_balance_untouched(txs.drop_first(), addr, bal);
    }
}

/// A chain that never names an address leaves its balance unchanged.
pub proof fn lemma_chain_balance_untouched(chain: Seq<BlockView>, addr: Seq<char>, bal: u64)
    requires
        !addr_in_chain(chain, addr),
    ensures
        chain_balance_from(chain, addr, bal) == bal,
    decreases chain.len(),
{
    if chain.len() > 0 {
        assert(!addr_in_txs(chain[0].transactions, addr));
        lemma_txs_balance_untouched(chain.first().transactions, addr, bal);
        assert(!addr_in_chain(chain.drop_first(), addr)) by {
            if addr_in_chain(chain.drop_first(), addr) {
                let i = choose|i: int|
                    0 <= i < chain.drop_first().len() && addr_in_txs(
                        (#[trigger] chain.drop_first()[i]).transactions,
                        addr,
                    );
                assert(chain.drop_first()[i] == chain[i + 1]);
                assert(addr_in_chain(chain, addr));
            }
        }
        lemma_chain_balance_untouched(chain.drop_first(), addr, bal);
    }
}

/// When exactly one record of a batch names the address, the replay is
/// that record's single effect.
pub proof fn lemma_txs_balance_single(txs: Seq<TxView>, p: int, addr: Seq<char>, bal: u64)
    requires
        0 <= p < txs.len(),
        forall|j: int|
            0 <= j < txs.len() && j != p ==> (#[trigger] txs[j]).sender != addr
                && txs[j].recipient != addr,
    ensures
        txs_balance(txs, addr, bal) == tx_delta(bal, txs[p], addr),
    decreases txs.len(),
{
    if p == 0 {
        assert(!addr_in_txs(txs.drop_first(), addr)) by {
            if addr_in_txs(txs.drop_first(), addr) {
                let j = choose|j: int|
                    0 <= j < txs.drop_first().len() && ((#[trigger] txs.drop_first()[j]).sender
                        == addr || txs.drop_first()[j].recipient == addr);
                assert(txs.drop_first()[j] == txs[j + 1]);
            }
        }
        lemma_txs_balance_untouched(txs.drop_first(), addr, tx_delta(bal, txs.first(), addr));
    } else {
        assert(tx_delta(bal, txs.first(), addr) == bal);
        assert forall|j: int|
            0 <= j < txs.drop_first().len() && j != p - 1 implies (#[trigger] txs.drop_first()[j]).sender
            != addr && txs.drop_first()[j].recipient != addr by {
            assert(txs.drop_first()[j] == txs[j + 1]);
        }
        lemma_txs_balance_single(txs.drop_first(), p - 1, addr, tx_delta(bal, txs.first(), addr));
        assert(txs.drop_first()[p - 1] == txs[p]);
    }
}

/// Balance round trip, first half: mining one block whose reward record
/// pays `r` to a fresh address `a`, atop a chain that never names `a`,
/// leaves `a` holding exactly `r`.
pub proof fn lemma_reward_balance(chain: Seq<BlockView>, nb: BlockView, a: Seq<char>, r: u64)
    requires
        !addr_in_chain(chain, a),
        a != coinbase_sender(),
        nb.transactions.len() >= 1,
        nb.transactions[0].sender == coinbase_sender(),
        nb.transactions[0].recipient == a,
        nb.transactions[0].amount == r,
        forall|j: int|
            1 <= j < nb.transactions.len() ==> (#[trigger] nb.transactions[j]).sender != a
                && nb.transactions[j].recipient != a,
    ensures
        chain_balance(chain.push(nb), a) == r,
{
    lemma_chain_balance_untouched(chain, a, 0u64);
    lemma_chain_balance_snoc(chain, nb, a, 0u64);
    lemma_txs_balance_single(nb.transactions, 0, a, 0u64);
}

/// Balance round trip, second half: a further block holding one transfer
/// of `k` from `a` (which holds `r >= k`) to `b` (which holds nothing),
/// among records that name neither address, leaves `a` with `r - k` and
/// `b` with `k`.
pub proof fn lemma_transfer_balance(
    chain: Seq<BlockView>,
    nb: BlockView,
    a: Seq<char>,
    b: Seq<char>,
    p: int,
    r: u64,
    k: u64,
)
    requires
        chain_balance(chain, a) == r,
        chain_balance(chain, b) == 0,
        a != b,
        a != coinbase_sender(),
        k <= r,
        0 <= p < nb.transactions.len(),
        nb.transactions[p].sender == a,
        nb.transactions[p].recipient == b,
        nb.transactions[p].amount == k,
        forall|j: int|
            0 <= j < nb.transactions.len() && j != p ==> (#[trigger] nb.transactions[j]).sender
                != a && nb.transactions[j].recipient != a && nb.transactions[j].sender != b
                && nb.transactions[j].recipient != b,
    ensures
        chain_balance(chain.push(nb), a) == r - k,
        chain_balance(chain.push(nb), b) == k,
{
    lemma_chain_balance_snoc(chain, nb, a, 0u64);
    lemma_txs_balance_single(nb.transactions, p, a, r);
    lemma_chain_balance_snoc(chain, nb, b, 0u64);
    lemma_txs_balance_single(nb.transactions, p, b, 0u64);
}

impl Blockchain {
    /// A fresh ledger at the given difficulty: a mined genesis block, an
    /// empty pending queue, and a reward of 100 per block.
    pub fn new(difficulty: usize) -> (r: Blockchain)
        ensures
            r@.difficulty == difficulty,
            r@.mining_reward == 100,
            r@.pending.len() == 0,
            r@.chain.len() == 1,
            r@.chain[0].index == 0,
            r@.chain[0].previous_hash == "0"@,
            r@.chain[0].hash == block_hash(r@.chain[0]),
            r@.chain[0].transactions.len() == 0,
            meets_difficulty(r@.chain[0].hash, difficulty as int) || genesis_exhausted(
                difficulty as int,
            ),
            r@.wf(),
    {
        let mut blockchain = Blockchain {
            chain: Vec::new(),
            difficulty,
            pending_transactions: Vec::new(),
            mining_reward: 100,
        };
        blockchain.create_genesis_block();
        blockchain
    }

    /// Mine and append the genesis block: index zero, the sentinel
    /// predecessor hash, no records. The stored hash meets the difficulty
    /// unless the mining search exhausted the whole nonce range.
    fn create_genesis_block(&mut self)
        requires
            old(self)@.chain.len() == 0,
        ensures
            final(self)@.difficulty == old(self)@.difficulty,
            final(self)@.mining_reward == old(self)@.mining_reward,
            final(self)@.pending == old(self)@.pending,
            final(self)@.chain.len() == 1,
            final(self)@.chain[0].previous_hash == "0"@,
            final(self)@.chain[0].hash == block_hash(final(self)@.chain[0]),
            final(self)@.chain[0].transactions.len() == 0,
            final(self)@.chain[0].index == 0,
            meets_difficulty(final(self)@.chain[0].hash, old(self)@.difficulty as int)
                || genesis_exhausted(old(self)@.difficulty as int),
    {
        let mut genesis_block = Block::new(0, string_zero(), Vec::new());
        let ghost entry = genesis_block@;
        let found = genesis_block.mine_block(self.difficulty);
        let h = genesis_block.calculate_hash();
        genesis_block.hash = h;
        let ghost g = genesis_block@;
        self.chain.push(genesis_block);
        proof {
            assert(self@.chain =~= old(self)@.chain.push(g));
            if !found {
                let d = self@.difficulty as int;
                assert(g.transactions =~= Seq::<TxView>::empty());
                assert forall|n: u64| n >= 0 implies !meets_difficulty(
                    block_hash(with_nonce(g, n)),
                    d,
                ) by {
                    assert(block_payload(with_nonce(g, n)) == block_payload(with_nonce(entry, n)));
                    assert(!meets_difficulty(block_hash(with_nonce(entry, n)), d));
                }
                assert(unminable(g, 0u64, "0"@, Seq::<TxView>::empty(), 0u64, d));
            }
        }
    }

    /// A borrow of the chain's tail, absent only on an empty chain.
    pub fn get_latest_block(&self) -> (r: Option<&Block>)
        ensures
            r is None <==> self@.chain.len() == 0,
            r matches Some(b) ==> self@.chain.len() > 0 && b@ == self@.chain.last(),
    {
        if self.chain.len() == 0 {
            None
        } else {
            Some(&self.chain[self.chain.len() - 1])
        }
    }

    /// Queue a record for the next block. A record is accepted exactly
    /// when it validates (and, for a transfer, carries a signature); a
    /// rejected record leaves the ledger unchanged. Balance sufficiency
    /// is deliberately not checked here: it belongs to the session
    /// boundary.
    pub fn add_transaction(&mut self, transaction: Transaction) -> (accepted: bool)
        ensures
            accepted == (tx_valid(transaction@) && (transaction@.sender == coinbase_sender()
                || transaction@.signature.len() > 0)),
            accepted ==> {
                &&& final(self)@.pending == old(self)@.pending.push(transaction@)
                &&& final(self)@.chain == old(self)@.chain
                &&& final(self)@.difficulty == old(self)@.difficulty
                &&& final(self)@.mining_reward == old(self)@.mining_reward
            },
            !accepted ==> final(self)@ == old(self)@,
            old(self)@.wf() ==> final(self)@.wf(),
    {
        if !transaction.is_valid() {
            return false;
        }
        if !str_eq(transaction.sender.as_str(), "coinbase_reward")
            && transaction.signature.as_str().is_empty() {
            return false;
        }
        let ghost t = transaction@;
        self.pending_transactions.push(transaction);
        proof {
            assert(self@.pending =~= old(self)@.pending.push(t));
        }
        true
    }
}

/// The shape of a freshly mined block: the reward record first, then the
/// queued records in arrival order, linked to the previous tail and
/// sealed at the ledger's difficulty.
pub open spec fn mined_block_ok(
    nb: BlockView,
    prev: BlockView,
    index: int,
    pending: Seq<TxView>,
    miner: Seq<char>,
    reward: u64,
    d: int,
) -> bool {
    &&& nb.index == index
    &&& nb.previous_hash == prev.hash
    &&& nb.hash == block_hash(nb)
    &&& meets_difficulty(nb.hash, d)
    &&& nb.transactions.len() == pending.len() + 1
    &&& nb.transactions[0].sender == coinbase_sender()
    &&& nb.transactions[0].recipient == miner
    &&& nb.transactions[0].public_key == miner
    &&& nb.transactions[0].amount == reward
    &&& nb.transactions[0].signature == coinbase_signature()
    &&& forall|j: int| 1 <= j < nb.transactions.len() ==> nb.transactions[j] == pending[j - 1]
}

/// A block with the given header fields and batch that misses the
/// difficulty target at every nonce from `from` up: what a failed
/// mining search leaves behind.
pub open spec fn unminable(
    b: BlockView,
    index: u64,
    prev_hash: Seq<char>,
    txs: Seq<TxView>,
    from: u64,
    d: int,
) -> bool {
    &&& b.index == index
    &&& b.previous_hash == prev_hash
    &&& b.transactions == txs
    &&& forall|n: u64|
        n >= from ==> !meets_difficulty(block_hash(#[trigger] with_nonce(b, n)), d)
}

/// A mining candidate of exactly the shape `mine_pending_transactions`
/// builds atop the ledger state `c` — the reward record to `miner`
/// first, then the queue — that misses the difficulty target at every
/// nonce.
pub open spec fn exhausted_candidate(b: BlockView, c: ChainView, miner: Seq<char>) -> bool {
    &&& b.index == c.chain.len()
    &&& b.previous_hash == c.chain.last().hash
    &&& b.transactions.len() == c.pending.len() + 1
    &&& b.transactions[0].sender == coinbase_sender()
    &&& b.transactions[0].recipient == miner
    &&& b.transactions[0].public_key == miner
    &&& b.transactions[0].amount == c.mining_reward
    &&& b.transactions[0].signature == coinbase_signature()
    &&& forall|j: int| 1 <= j < b.transactions.len() ==> b.transactions[j] == c.pending[j - 1]
    &&& forall|n: u64|
        !meets_difficulty(block_hash(#[trigger] with_nonce(b, n)), c.difficulty as int)
}

/// The ground a failed mining pass must show: some candidate of the
/// right shape misses the target at every nonce.
pub open spec fn mining_exhausted(c: ChainView, miner: Seq<char>) -> bool {
    exists|b: BlockView| #[trigger] exhausted_candidate(b, c, miner)
}

/// The ground a failed genesis mining must show: some empty block at
/// height zero, under the sentinel predecessor hash, misses the target
/// at every nonce.
pub open spec fn genesis_exhausted(d: int) -> bool {
    exists|b: BlockView| #[trigger] unminable(b, 0u64, "0"@, Seq::<TxView>::empty(), 0u64, d)
}

impl Blockchain {
    /// Link a block to the chain's tail, mine it, and append it. Fails,
    /// leaving the ledger unchanged, only if the mining search exhausts
    /// the nonce range from the block's current nonce up.
    fn add_block(&mut self, new_block: Block) -> (added: bool)
        requires
            old(self)@.chain.len() >= 1,
        ensures
            final(self)@.difficulty == old(self)@.difficulty,
            final(self)@.mining_reward == old(self)@.mining_reward,
            final(self)@.pending == old(self)@.pending,
            !added ==> final(self)@ == old(self)@,
            !added ==> exists|b: BlockView| #[trigger] unminable(
                b,
                new_block@.index,
                old(self)@.chain.last().hash,
                new_block@.transactions,
                new_block@.nonce,
                old(self)@.difficulty as int,
            ),
            added ==> {
                &&& final(self)@.chain.len() == old(self)@.chain.len() + 1
                &&& forall|i: int|
                    0 <= i < old(self)@.chain.len() ==> final(self)@.chain[i] == old(
                        self,
                    )@.chain[i]
                &&& final(self)@.chain.last().index == new_block@.index
                &&& final(self)@.chain.last().transactions == new_block@.transactions
                &&& final(self)@.chain.last().previous_hash == old(self)@.chain.last().hash
                &&& final(self)@.chain.last().hash == block_hash(final(self)@.chain.last())
                &&& meets_difficulty(final(self)@.chain.last().hash, old(self)@.difficulty as int)
            },
    {
        let latest_hash = match self.get_latest_block() {
            Some(b) => b.hash.clone(),
            None => {
                return false;
            },
        };
        let mut nb = new_block;
        nb.previous_hash = latest_hash;
        let ghost entry = nb@;
        let found = nb.mine_block(self.difficulty);
        if !found {
            proof {
                let bw = nb@;
                let d = self@.difficulty as int;
                assert forall|n: u64| n >= entry.nonce implies !meets_difficulty(
                    block_hash(with_nonce(bw, n)),
                    d,
                ) by {
                    assert(block_payload(with_nonce(bw, n)) == block_payload(with_nonce(entry, n)));
                    assert(!meets_difficulty(block_hash(with_nonce(entry, n)), d));
                }
                assert(unminable(
                    bw,
                    new_block@.index,
                    old(self)@.chain.last().hash,
                    new_block@.transactions,
                    new_block@.nonce,
                    d,
                ));
            }
            return false;
        }
        let ghost nbv = nb@;
        self.chain.push(nb);
        proof {
            assert(self@.chain =~= old(self)@.chain.push(nbv));
        }
        true
    }

    /// Mine the pending queue into a new block: a coinbase reward record
    /// to the miner first, then the queued records in arrival order; on
    /// success the queue is emptied. Reports failure without touching the
    /// ledger when the queue is empty (nothing to mine) or the mining
    /// search fails. A well-formed ledger stays well-formed whenever the
    /// miner's address is non-empty.
    pub fn mine_pending_transactions(&mut self, miner_address: String) -> (mined: bool)
        requires
            old(self)@.chain.len() >= 1,
        ensures
            final(self)@.difficulty == old(self)@.difficulty,
            final(self)@.mining_reward == old(self)@.mining_reward,
            !mined ==> final(self)@ == old(self)@,
            old(self)@.pending.len() == 0 ==> !mined,
            mined ==> {
                &&& old(self)@.pending.len() > 0
                &&& final(self)@.pending.len() == 0
                &&& final(self)@.chain.len() == old(self)@.chain.len() + 1
                &&& forall|i: int|
                    0 <= i < old(self)@.chain.len() ==> final(self)@.chain[i] == old(
                        self,
                    )@.chain[i]
                &&& mined_block_ok(
                    final(self)@.chain.last(),
                    old(self)@.chain.last(),
                    old(self)@.chain.len() as int,
                    old(self)@.pending,
                    miner_address@,
                    old(self)@.mining_reward,
                    old(self)@.difficulty as int,
                )
            },
            (!mined && old(self)@.pending.len() > 0) ==> mining_exhausted(
                old(self)@,
                miner_address@,
            ),
            (old(self)@.wf() && miner_address@.len() > 0) ==> final(self)@.wf(),
    {
        let ghost miner_v = miner_address@;
        let ghost pend0 = self.pending_transactions.deep_view();
        if self.pending_transactions.len() == 0 {
            return false;
        }
        let miner_for_key = miner_address.clone();
        let mut reward_tx = Transaction::new(
            "coinbase_reward".to_owned(),
            miner_address,
            self.mining_reward,
        );
        let empty_key: Vec<u8> = Vec::new();
        let _signed = reward_tx.sign(&empty_key, miner_for_key);
        let ghost reward_v = reward_tx@;
        let mut transactions_to_mine: Vec<Transaction> = Vec::new();
        transactions_to_mine.push(reward_tx);
        let mut pending_copy = self.pending_transactions.clone();
        proof {
            assert forall|j: int|
                0 <= j < pend0.len() implies pending_copy.deep_view()[j] == pend0[j] by {
                assert(cloned::<Transaction>(self.pending_transactions[j], pending_copy[j]));
            }
            assert(pending_copy.deep_view() =~= pend0);
        }
        transactions_to_mine.append(&mut pending_copy);
        proof {
            assert(transactions_to_mine.deep_view() =~= seq![reward_v] + pend0);
        }
        let new_index = self.chain.len() as u64;
        let latest_hash = match self.get_latest_block() {
            Some(b) => b.hash.clone(),
            None => {
                return false;
            },
        };
        let new_block = Block::new(new_index, latest_hash, transactions_to_mine);
        let ghost txs_v = new_block@.transactions;
        let ghost nbv0 = new_block@;
        let ghost before_call = self@;
        let added = self.add_block(new_block);
        if !added {
            proof {
                let oldv = old(self)@;
                let bw = choose|b: BlockView|
                    unminable(
                        b,
                        nbv0.index,
                        before_call.chain.last().hash,
                        nbv0.transactions,
                        nbv0.nonce,
                        before_call.difficulty as int,
                    );
                assert(exhausted_candidate(bw, oldv, miner_v));
                assert(mining_exhausted(oldv, miner_v));
            }
            return false;
        }
        self.pending_transactions.clear();
        proof {
            assert(self@.pending =~= Seq::<TxView>::empty());
            let oldv = old(self)@;
            let newv = self@;
            let d = oldv.difficulty as int;
            assert(newv.chain.last() == newv.chain[oldv.chain.len() as int]);
            if oldv.wf() && miner_v.len() > 0 {
                let nb = newv.chain.last();
                assert forall|i: int|
                    0 <= i < newv.chain.len() implies (#[trigger] newv.chain[i]).index == i by {
                    if i < oldv.chain.len() {
                        assert(newv.chain[i] == oldv.chain[i]);
                        assert(oldv.chain[i].index == i);
                    } else {
                        assert(newv.chain[i] == nb);
                    }
                }
                assert forall|j: int|
                    0 <= j < nb.transactions.len() implies tx_valid(#[trigger] nb.transactions[j]) by {
                    if j == 0 {
                        assert(nb.transactions[0] == reward_v);
                    } else {
                        assert(nb.transactions[j] == oldv.pending[j - 1]);
                        assert(tx_valid(oldv.pending[j - 1]));
                    }
                }
                assert forall|i: int|
                    1 <= i < newv.chain.len() implies #[trigger] block_linked_valid(
                    newv.chain[i],
                    newv.chain[i - 1],
                    d,
                ) by {
                    if i < oldv.chain.len() {
                        assert(block_linked_valid(oldv.chain[i], oldv.chain[i - 1], d));
                        assert(newv.chain[i] == oldv.chain[i]);
                        assert(newv.chain[i - 1] == oldv.chain[i - 1]);
                    } else {
                        assert(newv.chain[i] == nb);
                        assert(newv.chain[i - 1] == oldv.chain[i - 1]);
                        assert(newv.chain[i - 1] == oldv.chain.last());
                    }
                }
                assert(newv.chain[0] == oldv.chain[0]);
            }
        }
        true
    }

    /// The balance the address holds: a full replay of the chain with
    /// saturating arithmetic, in block order and storage order.
    pub fn get_balance_of_address(&self, address: &str) -> (r: u64)
        ensures
            r == chain_balance(self@.chain, address@),
    {
        let ghost chain = self@.chain;
        let mut balance: u64 = 0;
        let mut i: usize = 0;
        proof {
            assert(chain.take(0) =~= Seq::<BlockView>::empty());
        }
        while i < self.chain.len()
            invariant
                i <= self.chain.len(),
                chain == self@.chain,
                chain.len() == self.chain.len(),
                balance == chain_balance_from(chain.take(i as int), address@, 0u64),
            decreases self.chain.len() - i,
        {
            let block = &self.chain[i];
            let ghost bal0 = balance;
            let ghost txs = block@.transactions;
            let mut j: usize = 0;
            proof {
                assert(txs.take(0) =~= Seq::<TxView>::empty());
            }
            while j < block.transactions.len()
                invariant
                    j <= block.transactions.len(),
                    txs == block@.transactions,
                    txs.len() == block.transactions.len(),
                    balance == txs_balance(txs.take(j as int), address@, bal0),
                decreases block.transactions.len() - j,
            {
                let tx = &block.transactions[j];
                let amount = tx.amount;
                if str_eq(tx.sender.as_str(), address) && !str_eq(
                    tx.sender.as_str(),
                    "coinbase_reward",
                ) {
                    balance = balance.saturating_sub(amount);
                }
                if str_eq(tx.recipient.as_str(), address) {
                    balance = balance.saturating_add(amount);
                }
                proof {
                    lemma_txs_balance_snoc(txs.take(j as int), txs[j as int], address@, bal0);
                    assert(txs.take(j as int + 1) =~= txs.take(j as int).push(txs[j as int]));
                }
                j = j + 1;
            }
            proof {
                assert(txs.take(txs.len() as int) =~= txs);
                lemma_chain_balance_snoc(chain.take(i as int), chain[i as int], address@, 0u64);
                assert(chain.take(i as int + 1) =~= chain.take(i as int).push(chain[i as int]));
            }
            i = i + 1;
        }
        proof {
            assert(chain.take(chain.len() as int) =~= chain);
        }
        balance
    }

    /// Walk the chain from the first non-genesis block: recompute each
    /// stored hash, check the link to the predecessor, the difficulty,
    /// and every record; report the first violation. True exactly when
    /// the whole chain passes.
    pub fn is_chain_valid(&self) -> (r: bool)
        ensures
            r == chain_valid(self@.chain, self@.difficulty as int),
    {
        let ghost chain = self@.chain;
        let ghost d = self@.difficulty as int;
        let mut i: usize = 1;
        while i < self.chain.len()
            invariant
                1 <= i,
                chain == self@.chain,
                chain.len() == self.chain.len(),
                d == self@.difficulty as int,
                forall|k: int| 1 <= k < i ==> #[trigger] block_linked_valid(
                    chain[k],
                    chain[k - 1],
                    d,
                ),
            decreases self.chain.len() - i,
        {
            let current = &self.chain[i];
            let previous = &self.chain[i - 1];
            let computed = current.calculate_hash();
            if !str_eq(current.hash.as_str(), computed.as_str()) {
                proof {
                    assert(!block_linked_valid(chain[i as int], chain[i as int - 1], d));
                }
                return false;
            }
            if !str_eq(current.previous_hash.as_str(), previous.hash.as_str()) {
                proof {
                    assert(!block_linked_valid(chain[i as int], chain[i as int - 1], d));
                }
                return false;
            }
            if !has_leading_zeros(current.hash.as_str(), self.difficulty) {
                proof {
                    assert(!block_linked_valid(chain[i as int], chain[i as int - 1], d));
                }
                return false;
            }
            let ghost txs = current@.transactions;
            let mut j: usize = 0;
            while j < current.transactions.len()
                invariant
                    j <= current.transactions.len(),
                    txs == current@.transactions,
                    txs.len() == current.transactions.len(),
                    current@ == chain[i as int],
                    1 <= i < chain.len(),
                    chain == self@.chain,
                    d == self@.difficulty as int,
                    forall|l: int| 0 <= l < j ==> tx_valid(#[trigger] txs[l]),
                decreases current.transactions.len() - j,
            {
                if !current.transactions[j].is_valid() {
                    proof {
                        assert(!tx_valid(txs[j as int]));
                        assert(!block_linked_valid(chain[i as int], chain[i as int - 1], d));
                    }
                    return false;
                }
                j = j + 1;
            }
            proof {
                assert(block_linked_valid(chain[i as int], chain[i as int - 1], d));
            }
            i = i + 1;
        }
        true
    }
}

impl Clone for Blockchain {
    /// The copy carries the same field values.
    fn clone(&self) -> (r: Self)
        ensures
            r@ == self@,
    {
        let r = Blockchain {
            chain: self.chain.clone(),
            difficulty: self.difficulty,
            pending_transactions: self.pending_transactions.clone(),
            mining_reward: self.mining_reward,
        };
        proof {
            assert forall|i: int|
                0 <= i < self.chain@.len() implies r.chain.deep_view()[i]
                == self.chain.deep_view()[i] by {
                assert(cloned::<Block>(self.chain[i], r.chain[i]));
            }
            assert(r.chain.deep_view() =~= self.chain.deep_view());
            assert forall|i: int|
                0 <= i < self.pending_transactions@.len() implies r.pending_transactions.deep_view()[i]
                == self.pending_transactions.deep_view()[i] by {
                assert(cloned::<Transaction>(self.pending_transactions[i], r.pending_transactions[i]));
            }
            assert(r.pending_transactions.deep_view() =~= self.pending_transactions.deep_view());
        }
        r
    }
}

/// The sentinel predecessor hash of the genesis block.
fn string_zero() -> (r: String)
    ensures
        r@ == "0"@,
{
    "0".to_owned()
}

} // verus!
