//! The append-only ledger: transactions, blocks, the proof-of-work search
//! and the chain invariants. A block's hash is the SHA-256 digest, rendered
//! as lowercase hex, of the exact text `index ‖ " " ‖ prevHash ‖ " " ‖
//! timestamp ‖ " " ‖ transactions ‖ " " ‖ nonce`; a mined hash must begin
//! with [`DIFFICULTY`] zero characters.

use vstd::prelude::*;

use crate::digest::{hex_of, sha256_digest, sha256_of, to_hex_string};
use crate::events::{active_count, BlockchainEvent, EventBus};
use crate::numfmt::{dec_rep, u32_to_string, u64_to_string};

verus! {

use vstd::utf8::encode_utf8;

/// Leading zero hex characters required of a mined hash.
pub const DIFFICULTY: usize = 2;

/// What can go wrong while building the ledger: the system clock could not
/// be read when a block was constructed.
#[derive(Debug)]
pub enum BlockchainError {
    TimeError(String),
}

/// A transfer between two parties, immutable once created and owned by
/// exactly one block.
#[derive(Debug)]
pub struct Transaction {
    pub from: String,
    pub to: String,
    pub amount: u64,
    pub fee: u64,
    pub signature: Option<String>,
}

/// The textual rendering of one transaction, as it enters the hash preimage.
pub open spec fn tx_display(t: Transaction) -> Seq<char> {
    "From: "@ + t.from@ + " To: "@ + t.to@ + " Amount: "@ + dec_rep(t.amount) + " Fee: "@
        + dec_rep(t.fee)
}

impl Clone for Transaction {
    fn clone(&self) -> (r: Self)
        ensures
            r == *self,
    {
        Transaction {
            from: self.from.clone(),
            to: self.to.clone(),
            amount: self.amount,
            fee: self.fee,
            signature: match &self.signature {
                Some(s) => Some(s.clone()),
                None => None,
            },
        }
    }
}

impl Transaction {
    /// Renders the transaction as the text that enters the hash preimage.
    pub fn display_string(&self) -> (r: String)
        ensures
            r@ == tx_display(*self),
    {
        let mut s = String::new();
        s.append("From: ");
        s.append(self.from.as_str());
        s.append(" To: ");
        s.append(self.to.as_str());
        s.append(" Amount: ");
        let amount = u64_to_string(self.amount);
        s.append(amount.as_str());
        s.append(" Fee: ");
        let fee = u64_to_string(self.fee);
        s.append(fee.as_str());
        proof {
            assert(s@ =~= tx_display(*self));
        }
        s
    }
}

/// The ordered transactions of one block.
#[derive(Debug)]
pub struct MultipleTransactions {
    pub transaction_table: Vec<Transaction>,
}

/// The rendering of the transactions numbered from `k + 1` on: each is
/// `Transaction <n>: <transaction> `, one-based, with a trailing space.
pub open spec fn txs_display_from(ts: Seq<Transaction>, k: int) -> Seq<char>
    decreases ts.len() - k,
{
    if k < 0 || k >= ts.len() {
        Seq::empty()
    } else {
        "Transaction "@ + dec_rep((k + 1) as u64) + ": "@ + tx_display(ts[k]) + " "@
            + txs_display_from(ts, k + 1)
    }
}

/// The textual rendering of a transaction table, as it enters the hash
/// preimage.
pub open spec fn txs_display(ts: Seq<Transaction>) -> Seq<char> {
    txs_display_from(ts, 0)
}

impl Clone for MultipleTransactions {
    fn clone(&self) -> (r: Self)
        ensures
            r.transaction_table@ == self.transaction_table@,
    {
        let table = self.transaction_table.clone();
        proof {
            assert(table@ =~= self.transaction_table@);
        }
        MultipleTransactions { transaction_table: table }
    }
}

impl MultipleTransactions {
    /// Renders the table as the text that enters the hash preimage.
    pub fn display_string(&self) -> (r: String)
        ensures
            r@ == txs_display(self.transaction_table@),
    {
        let ghost ts = self.transaction_table@;
        let n_txs = self.transaction_table.len();
        proof {
            assert(ts.len() == n_txs as int);
        }
        let mut s = String::new();
        let mut i: usize = 0;
        while i < self.transaction_table.len()
            invariant
                i <= ts.len(),
                ts == self.transaction_table@,
                ts.len() <= usize::MAX,
                s@ + txs_display_from(ts, i as int) =~= txs_display(ts),
            decreases ts.len() - i,
        {
            s.append("Transaction ");
            let n = u64_to_string((i as u64) + 1);
            s.append(n.as_str());
            s.append(": ");
            let t = self.transaction_table[i].display_string();
            s.append(t.as_str());
            s.append(" ");
            proof {
                assert(txs_display_from(ts, i as int) =~= "Transaction "@ + dec_rep(
                    (i + 1) as u64,
                ) + ": "@ + tx_display(ts[i as int]) + " "@ + txs_display_from(ts, i + 1));
                assert(s@ + txs_display_from(ts, i + 1) =~= txs_display(ts));
            }
            i += 1;
        }
        proof {
            assert(s@ =~= txs_display(ts));
        }
        s
    }
}

/// One entry of the ledger. `hash` is empty until mining succeeds.
#[derive(Debug)]
pub struct Block {
    pub index: u32,
    pub prev_hash: String,
    pub timestamp: u64,
    pub data: MultipleTransactions,
    pub nonce: u64,
    pub hash: String,
}

/// Two blocks that agree on every observable field. A clone of a block is
/// `block_eq` to it (the transaction vector is rebuilt, so the blocks need
/// not be the same value).
pub open spec fn block_eq(a: Block, b: Block) -> bool {
    &&& a.index == b.index
    &&& a.prev_hash@ == b.prev_hash@
    &&& a.timestamp == b.timestamp
    &&& a.data.transaction_table@ == b.data.transaction_table@
    &&& a.nonce == b.nonce
    &&& a.hash@ == b.hash@
}

impl Clone for Block {
    fn clone(&self) -> (r: Self)
        ensures
            block_eq(r, *self),
    {
        Block {
            index: self.index,
            prev_hash: self.prev_hash.clone(),
            timestamp: self.timestamp,
            data: self.data.clone(),
            nonce: self.nonce,
            hash: self.hash.clone(),
        }
    }
}

/// The exact text whose UTF-8 bytes are hashed for a block.
pub open spec fn block_preimage(
    index: u32,
    prev_hash: Seq<char>,
    timestamp: u64,
    txs: Seq<Transaction>,
    nonce: u64,
) -> Seq<char> {
    dec_rep(index as u64) + " "@ + prev_hash + " "@ + dec_rep(timestamp) + " "@ + txs_display(txs)
        + " "@ + dec_rep(nonce)
}

/// The hex hash a block would have with the given nonce.
pub open spec fn hash_at(b: Block, nonce: u64) -> Seq<char> {
    hex_of(
        sha256_of(
            encode_utf8(
                block_preimage(b.index, b.prev_hash@, b.timestamp, b.data.transaction_table@, nonce),
            ),
        ),
    )
}

/// The hex hash determined by a block's current fields.
pub open spec fn spec_block_hash(b: Block) -> Seq<char> {
    hash_at(b, b.nonce)
}

/// The proof-of-work success predicate: the first `d` characters are `'0'`.
pub open spec fn meets_difficulty(h: Seq<char>, d: int) -> bool {
    h.len() >= d && forall|i: int| 0 <= i < d ==> h[i] == '0'
}

/// A block whose stored hash is the digest of its own preimage and satisfies
/// the difficulty `d`.
pub open spec fn mined_ok(b: Block, d: int) -> bool {
    b.hash@ == spec_block_hash(b) && meets_difficulty(b.hash@, d)
}

/// Whether a hash string begins with `difficulty` zero characters.
pub fn hash_meets_difficulty(h: &str, difficulty: usize) -> (r: bool)
    ensures
        r == meets_difficulty(h@, difficulty as int),
{
    let len = h.unicode_len();
    if len < difficulty {
        return false;
    }
    let mut i: usize = 0;
    while i < difficulty
        invariant
            i <= difficulty,
            difficulty <= h@.len(),
            forall|j: int| 0 <= j < i ==> h@[j] == '0',
        decreases difficulty - i,
    {
        if h.get_char(i) != '0' {
            return false;
        }
        i += 1;
    }
    true
}

impl Block {
    /// Builds an unmined block. The clock reading is handed in by the caller;
    /// a failed reading surfaces as [`BlockchainError::TimeError`] carrying
    /// the clock's message.
    pub fn new(index: u32, prev_hash: String, data: MultipleTransactions, clock: Result<
        u64,
        String,
    >) -> (r: Result<Block, BlockchainError>)
        ensures
            clock is Ok ==> (r matches Ok(b) && b.index == index && b.prev_hash == prev_hash
                && b.timestamp == clock->Ok_0 && b.data == data && b.nonce == 0 && b.hash@
                == Seq::<char>::empty()),
            clock is Err ==> (r matches Err(e) && (e matches BlockchainError::TimeError(m) && m@
                == "Time Error : "@ + clock->Err_0@)),
    {
        match clock {
            Ok(timestamp) => Ok(
                Block { index, prev_hash, timestamp, data, nonce: 0, hash: String::new() },
            ),
            Err(e) => {
                let mut m = String::new();
                m.append("Time Error : ");
                m.append(e.as_str());
                Err(BlockchainError::TimeError(m))
            },
        }
    }

    /// Computes the hex digest of the block's exact preimage text under its
    /// current nonce. Recomputing it on a mined block reproduces the stored
    /// hash.
    pub fn calculate_hash(&self) -> (r: String)
        ensures
            r@ == spec_block_hash(*self),
            r@.len() == 64,
    {
        let mut data = String::new();
        let index = u32_to_string(self.index);
        data.append(index.as_str());
        data.append(" ");
        data.append(self.prev_hash.as_str());
        data.append(" ");
        let ts = u64_to_string(self.timestamp);
        data.append(ts.as_str());
        data.append(" ");
        let txs = self.data.display_string();
        data.append(txs.as_str());
        data.append(" ");
        let nonce = u64_to_string(self.nonce);
        data.append(nonce.as_str());
        proof {
            assert(data@ =~= block_preimage(
                self.index,
                self.prev_hash@,
                self.timestamp,
                self.data.transaction_table@,
                self.nonce,
            ));
        }
        let digest = sha256_digest(data.as_str().as_bytes());
        to_hex_string(&digest)
    }

    /// Searches nonces upward from the block's current one until the digest
    /// meets `difficulty`. On success the stored hash is the digest of the
    /// block's own preimage, the first nonce at or after the starting one
    /// that works; the search is never re-run after a success. Failure means
    /// no remaining nonce works.
    pub fn mine(&mut self, difficulty: usize) -> (found: bool)
        ensures
            final(self).index == old(self).index,
            final(self).prev_hash == old(self).prev_hash,
            final(self).timestamp == old(self).timestamp,
            final(self).data == old(self).data,
            final(self).nonce >= old(self).nonce,
            found ==> mined_ok(*final(self), difficulty as int),
            found ==> forall|n: u64|
                old(self).nonce <= n < final(self).nonce ==> !meets_difficulty(
                    hash_at(*old(self), n),
                    difficulty as int,
                ),
            !found ==> forall|n: u64|
                n >= old(self).nonce ==> !meets_difficulty(hash_at(*old(self), n), difficulty as int),
    {
        loop
            invariant
                self.index == old(self).index,
                self.prev_hash == old(self).prev_hash,
                self.timestamp == old(self).timestamp,
                self.data == old(self).data,
                self.nonce >= old(self).nonce,
                forall|n: u64|
                    old(self).nonce <= n < self.nonce ==> !meets_difficulty(
                        hash_at(*old(self), n),
                        difficulty as int,
                    ),
            decreases u64::MAX - self.nonce,
        {
            let h = self.calculate_hash();
            self.hash = h;
            if hash_meets_difficulty(self.hash.as_str(), difficulty) {
                return true;
            }
            if self.nonce == u64::MAX {
                return false;
            }
            self.nonce = self.nonce + 1;
        }
    }

    /// Mines the block under [`DIFFICULTY`], announcing the start of mining
    /// and — on success — the mined hash on the event bus. With no attached
    /// subscriber the announcements are dropped, as the bus promises.
    pub fn mine_block_with_visual_hash(&mut self, event_bus: &mut EventBus, miner: &str) -> (found:
        bool)
        requires
            old(event_bus).wf(),
        ensures
            final(event_bus).wf(),
            final(event_bus).spec_cursors() == old(event_bus).spec_cursors(),
            final(event_bus).spec_capacity() == old(event_bus).spec_capacity(),
            final(self).index == old(self).index,
            final(self).prev_hash == old(self).prev_hash,
            final(self).timestamp == old(self).timestamp,
            final(self).data == old(self).data,
            final(self).nonce >= old(self).nonce,
            found ==> mined_ok(*final(self), DIFFICULTY as int),
            found ==> forall|n: u64|
                old(self).nonce <= n < final(self).nonce ==> !meets_difficulty(
                    hash_at(*old(self), n),
                    DIFFICULTY as int,
                ),
            !found ==> forall|n: u64|
                n >= old(self).nonce ==> !meets_difficulty(
                    hash_at(*old(self), n),
                    DIFFICULTY as int,
                ),
            active_count(old(event_bus).spec_cursors()) == 0 ==> final(event_bus).spec_log() == old(
                event_bus,
            ).spec_log(),
            active_count(old(event_bus).spec_cursors()) > 0 ==> {
                let log0 = old(event_bus).spec_log();
                let log1 = final(event_bus).spec_log();
                &&& log1.len() == log0.len() + if found { 2int } else { 1int }
                &&& log1.subrange(0, log0.len() as int) == log0
                &&& log1[log0.len() as int] matches BlockchainEvent::BlockMiningStarted {
                    block_index,
                    miner: m,
                    timestamp,
                } && block_index == old(self).index && m@ == miner@ && timestamp == old(
                    self,
                ).timestamp
                &&& found ==> (log1[log0.len() as int + 1] matches BlockchainEvent::BlockMined {
                    block_index,
                    hash,
                    miner: m,
                    timestamp,
                    transactions_count,
                } && block_index == old(self).index && hash@ == final(self).hash@ && m@ == miner@
                    && timestamp == old(self).timestamp && transactions_count == old(
                    self,
                ).data.transaction_table@.len())
            },
    {
        let started = BlockchainEvent::BlockMiningStarted {
            block_index: self.index,
            miner: miner.to_owned(),
            timestamp: self.timestamp,
        };
        event_bus.broadcast(started);
        let found = self.mine(DIFFICULTY);
        if found {
            let mined = BlockchainEvent::BlockMined {
                block_index: self.index,
                hash: self.hash.clone(),
                miner: miner.to_owned(),
                timestamp: self.timestamp,
                transactions_count: self.data.transaction_table.len(),
            };
            event_bus.broadcast(mined);
        }
        found
    }
}

/// Total transactions across a chain.
pub open spec fn total_txs(chain: Seq<Block>) -> int
    decreases chain.len(),
{
    if chain.len() == 0 {
        0
    } else {
        total_txs(chain.drop_last()) + chain.last().data.transaction_table@.len()
    }
}

proof fn lemma_total_txs_take_step(chain: Seq<Block>, i: int)
    requires
        0 <= i < chain.len(),
    ensures
        total_txs(chain.take(i + 1)) == total_txs(chain.take(i))
            + chain[i].data.transaction_table@.len(),
{
    assert(chain.take(i + 1).drop_last() =~= chain.take(i));
    assert(chain.take(i + 1).last() == chain[i]);
}

proof fn lemma_total_txs_nonneg(chain: Seq<Block>)
    ensures
        total_txs(chain) >= 0,
    decreases chain.len(),
{
    if chain.len() > 0 {
        lemma_total_txs_nonneg(chain.drop_last());
    }
}

proof fn lemma_total_txs_take_le(chain: Seq<Block>, i: int)
    requires
        0 <= i <= chain.len(),
    ensures
        total_txs(chain.take(i)) <= total_txs(chain),
    decreases chain.len() - i,
{
    if i == chain.len() {
        assert(chain.take(i) =~= chain);
    } else {
        lemma_total_txs_take_step(chain, i);
        lemma_total_txs_take_le(chain, i + 1);
    }
}

/// The chain invariant: a genesis block with no transactions and an empty
/// previous hash, positions matching stored indices, every later block
/// carrying its predecessor's hash, and every later block properly mined.
pub open spec fn chain_wf(chain: Seq<Block>) -> bool {
    &&& chain.len() >= 1
    &&& chain[0].prev_hash@ == Seq::<char>::empty()
    &&& chain[0].data.transaction_table@.len() == 0
    &&& forall|i: int| 0 <= i < chain.len() ==> (#[trigger] chain[i]).index as int == i
    &&& forall|i: int|
        1 <= i < chain.len() ==> (#[trigger] chain[i]).prev_hash@ == chain[i - 1].hash@
    &&& forall|i: int| 1 <= i < chain.len() ==> mined_ok(#[trigger] chain[i], DIFFICULTY as int)
}

/// The ledger: an ordered, append-only, never-empty sequence of blocks.
#[derive(Debug)]
pub struct BlockChain {
    pub chain: Vec<Block>,
}

impl BlockChain {
    pub open spec fn wf(self) -> bool {
        chain_wf(self.chain@)
    }

    /// Builds a ledger holding only the genesis block: index zero, empty
    /// previous hash, no transactions. A failed clock reading surfaces as
    /// [`BlockchainError::TimeError`].
    pub fn new(clock: Result<u64, String>) -> (r: Result<BlockChain, BlockchainError>)
        ensures
            clock is Ok ==> (r matches Ok(c) && c.wf() && c.chain@.len() == 1
                && c.chain@[0].timestamp == clock->Ok_0 && c.chain@[0].hash@
                == Seq::<char>::empty() && c.chain@[0].nonce == 0),
            clock is Err ==> (r matches Err(e) && e matches BlockchainError::TimeError(_)),
    {
        let genesis_block_data = MultipleTransactions { transaction_table: Vec::new() };
        match Block::new(0, String::new(), genesis_block_data, clock) {
            Ok(genesis_block) => {
                let mut chain: Vec<Block> = Vec::new();
                chain.push(genesis_block);
                Ok(BlockChain { chain })
            },
            Err(e) => Err(e),
        }
    }

    /// Appends a block that was already mined against the current tail: its
    /// stored index is the chain's length, its previous hash is the tail's
    /// hash, and its stored hash is the mined digest of its own preimage.
    /// Mining happens elsewhere — a caller mines a detached candidate and
    /// holds the ledger only for this constant-time step, so readers are
    /// never blocked behind the search.
    pub fn append(&mut self, mined_block: Block)
        requires
            old(self).wf(),
            mined_block.index as int == old(self).chain@.len(),
            mined_block.prev_hash@ == old(self).chain@.last().hash@,
            mined_ok(mined_block, DIFFICULTY as int),
        ensures
            final(self).wf(),
            final(self).chain@ == old(self).chain@.push(mined_block),
    {
        let ghost c0 = self.chain@;
        self.chain.push(mined_block);
        proof {
            assert(self.chain@.subrange(0, c0.len() as int) =~= c0);
            assert forall|i: int| 0 <= i < self.chain@.len() implies (#[trigger] self.chain@[i]).index
                as int == i by {
                if i < c0.len() {
                    assert(self.chain@[i] == c0[i]);
                }
            }
        }
    }

    /// Links `new_block` to the current tail, mines it, and — only on mining
    /// success — appends it, announcing the update on the bus. The chain is
    /// untouched when mining fails, and then no nonce of the linked candidate
    /// could ever meet the difficulty.
    pub fn add_new_block(&mut self, new_block: Block, event_bus: &mut EventBus, miner: &str) -> (added:
        bool)
        requires
            old(self).wf(),
            old(event_bus).wf(),
            new_block.index as int == old(self).chain@.len(),
            old(self).chain@.len() < u32::MAX as int,
            total_txs(old(self).chain@) + new_block.data.transaction_table@.len() <= usize::MAX,
        ensures
            final(self).wf(),
            final(event_bus).wf(),
            final(event_bus).spec_cursors() == old(event_bus).spec_cursors(),
            final(event_bus).spec_capacity() == old(event_bus).spec_capacity(),
            !added ==> final(self).chain@ == old(self).chain@,
            !added ==> forall|n: u64|
                n >= new_block.nonce ==> !meets_difficulty(
                    hash_at((Block { prev_hash: old(self).chain@.last().hash, ..new_block }), n),
                    DIFFICULTY as int,
                ),
            added ==> {
                let c0 = old(self).chain@;
                let c1 = final(self).chain@;
                &&& c1.len() == c0.len() + 1
                &&& c1.subrange(0, c0.len() as int) == c0
                &&& c1.last().index == new_block.index
                &&& c1.last().timestamp == new_block.timestamp
                &&& c1.last().data == new_block.data
                &&& c1.last().prev_hash@ == c0.last().hash@
                &&& mined_ok(c1.last(), DIFFICULTY as int)
            },
            active_count(old(event_bus).spec_cursors()) == 0 ==> final(event_bus).spec_log() == old(
                event_bus,
            ).spec_log(),
            active_count(old(event_bus).spec_cursors()) > 0 ==> {
                let log0 = old(event_bus).spec_log();
                let log1 = final(event_bus).spec_log();
                &&& log1.len() == log0.len() + if added { 3int } else { 1int }
                &&& log1.subrange(0, log0.len() as int) == log0
                &&& (log1[log0.len() as int] matches BlockchainEvent::BlockMiningStarted {
                    block_index,
                    miner: m,
                    timestamp,
                } && block_index == new_block.index && m@ == miner@ && timestamp
                    == new_block.timestamp)
                &&& added ==> (log1[log0.len() as int + 1] matches BlockchainEvent::BlockMined {
                    block_index,
                    hash,
                    miner: m,
                    timestamp,
                    transactions_count,
                } && block_index == new_block.index && hash@ == final(self).chain@.last().hash@
                    && m@ == miner@ && timestamp == new_block.timestamp && transactions_count
                    as int == new_block.data.transaction_table@.len())
                &&& added ==> (log1[log0.len() as int + 2] matches BlockchainEvent::BlockchainUpdated {
                    total_blocks,
                    total_transactions,
                } && total_blocks as int == final(self).chain@.len() && total_transactions as int
                    == total_txs(final(self).chain@))
            },
    {
        let ghost c0 = self.chain@;
        let last = self.chain.len() - 1;
        let prev_hash = self.chain[last].hash.clone();
        let mut block = new_block;
        block.prev_hash = prev_hash;
        let ghost linked = block;
        proof {
            assert(linked == (Block { prev_hash: old(self).chain@.last().hash, ..new_block }));
        }
        let found = block.mine_block_with_visual_hash(event_bus, miner);
        if !found {
            return false;
        }
        self.append(block);
        proof {
            assert(self.chain@.drop_last() =~= c0);
            assert(total_txs(self.chain@) == total_txs(c0)
                + self.chain@.last().data.transaction_table@.len());
        }
        let total = self.total_transactions();
        let updated = BlockchainEvent::BlockchainUpdated {
            total_blocks: self.chain.len(),
            total_transactions: total,
        };
        event_bus.broadcast(updated);
        true
    }

    /// How many blocks the ledger holds.
    pub fn get_total_block(&self) -> (r: usize)
        ensures
            r as int == self.chain@.len(),
    {
        self.chain.len()
    }

    /// How many transactions the ledger holds, across all blocks.
    pub fn total_transactions(&self) -> (r: usize)
        requires
            total_txs(self.chain@) <= usize::MAX,
        ensures
            r as int == total_txs(self.chain@),
    {
        let ghost chain = self.chain@;
        let mut sum: usize = 0;
        let mut i: usize = 0;
        proof {
            assert(chain.take(0) =~= Seq::<Block>::empty());
        }
        while i < self.chain.len()
            invariant
                i <= chain.len(),
                chain == self.chain@,
                total_txs(chain) <= usize::MAX,
                sum as int == total_txs(chain.take(i as int)),
            decreases chain.len() - i,
        {
            proof {
                lemma_total_txs_take_step(chain, i as int);
                lemma_total_txs_take_le(chain, i + 1);
                lemma_total_txs_nonneg(chain.take(i as int));
            }
            sum = sum + self.chain[i].data.transaction_table.len();
            i += 1;
        }
        proof {
            assert(chain.take(chain.len() as int) =~= chain);
        }
        sum
    }
}

/// Builds a transaction; no event is announced here — transactions are
/// published together when their block is mined.
pub fn create_transaction(
    from: &str,
    to: &str,
    amount: u64,
    fee: u64,
    _block_index: u32,
    _event_bus: &EventBus,
) -> (r: Transaction)
    ensures
        r.from@ == from@,
        r.to@ == to@,
        r.amount == amount,
        r.fee == fee,
        r.signature is None,
{
    Transaction { from: from.to_owned(), to: to.to_owned(), amount, fee, signature: None }
}

/// Law: every block after the genesis carries exactly the hash of the block
/// before it.
pub proof fn lemma_chain_linked(c: BlockChain, i: int)
    requires
        c.wf(),
        1 <= i < c.chain@.len(),
    ensures
        c.chain@[i].prev_hash@ == c.chain@[i - 1].hash@,
{
}

/// Law: a mined block's stored hash is the hex SHA-256 digest of the exact
/// concatenation of its index, previous hash, timestamp, rendered
/// transactions and nonce — so recomputing the digest reproduces it — and its
/// first [`DIFFICULTY`] characters are `'0'`.
pub proof fn lemma_mined_block_hash(c: BlockChain, i: int)
    requires
        c.wf(),
        1 <= i < c.chain@.len(),
    ensures
        c.chain@[i].hash@ == spec_block_hash(c.chain@[i]),
        meets_difficulty(c.chain@[i].hash@, DIFFICULTY as int),
{
}

} // verus!
