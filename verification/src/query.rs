//! Read-only queries over the ledger, and the routing table of the query
//! interface. None of these mutates the chain; each is a pure function of
//! the ledger value it is shown, so two reads with no intervening mutation
//! agree.

use vstd::prelude::*;

use crate::events::ConnectionManager;
use crate::ledger::{block_eq, Block, BlockChain};
use crate::strings::{
    all_digits, dec_value, ends_with, parse_u32, starts_with, str_ends_with, str_eq,
    str_starts_with,
};

verus! {

/// Where a query path leads.
#[derive(Debug, PartialEq, Eq, Structural)]
pub enum ApiRoute {
    AllBlocks,
    BlockByIndex(u32),
    BlockTransactions(u32),
    AllTransactions,
    Status,
    NotFound,
}

/// The route a path addresses: `/api/blocks`, `/api/blocks/<n>`,
/// `/api/blocks/<n>/transactions`, `/api/transactions` or `/api/status`,
/// with `<n>` a decimal block position fitting a `u32`.
pub open spec fn spec_route(p: Seq<char>) -> ApiRoute {
    if p == "/api/blocks"@ {
        ApiRoute::AllBlocks
    } else if p == "/api/transactions"@ {
        ApiRoute::AllTransactions
    } else if p == "/api/status"@ {
        ApiRoute::Status
    } else if starts_with(p, "/api/blocks/"@) && {
        let mid = p.skip("/api/blocks/"@.len() as int);
        all_digits(mid) && dec_value(mid) <= u32::MAX
    } {
        ApiRoute::BlockByIndex(dec_value(p.skip("/api/blocks/"@.len() as int)) as u32)
    } else if starts_with(p, "/api/blocks/"@) && ends_with(p, "/transactions"@) && p.len()
        >= "/api/blocks/"@.len() + "/transactions"@.len() && {
        let mid = p.subrange("/api/blocks/"@.len() as int, p.len() - "/transactions"@.len());
        all_digits(mid) && dec_value(mid) <= u32::MAX
    } {
        ApiRoute::BlockTransactions(
            dec_value(p.subrange("/api/blocks/"@.len() as int, p.len() - "/transactions"@.len()))
                as u32,
        )
    } else {
        ApiRoute::NotFound
    }
}

/// Resolves a query path to its route.
pub fn parse_route(path: &str) -> (r: ApiRoute)
    ensures
        r == spec_route(path@),
{
    if str_eq(path, "/api/blocks") {
        return ApiRoute::AllBlocks;
    }
    if str_eq(path, "/api/transactions") {
        return ApiRoute::AllTransactions;
    }
    if str_eq(path, "/api/status") {
        return ApiRoute::Status;
    }
    let blocks_prefix = "/api/blocks/";
    let tx_suffix = "/transactions";
    if str_starts_with(path, blocks_prefix) {
        let n = path.unicode_len();
        let k = blocks_prefix.unicode_len();
        let mid = path.substring_char(k, n);
        match parse_u32(mid) {
            Some(v) => {
                return ApiRoute::BlockByIndex(v);
            },
            None => {},
        }
        let t = tx_suffix.unicode_len();
        if str_ends_with(path, tx_suffix) && n - k >= t {
            let mid = path.substring_char(k, n - t);
            match parse_u32(mid) {
                Some(v) => {
                    return ApiRoute::BlockTransactions(v);
                },
                None => {},
            }
        }
    }
    ApiRoute::NotFound
}

/// A full snapshot of the ledger, block for block.
pub fn get_all_blocks(blockchain: &BlockChain) -> (r: Vec<Block>)
    ensures
        r@.len() == blockchain.chain@.len(),
        forall|i: int|
            0 <= i < r@.len() ==> block_eq(#[trigger] r@[i], blockchain.chain@[i]),
{
    let mut out: Vec<Block> = Vec::new();
    let mut i: usize = 0;
    while i < blockchain.chain.len()
        invariant
            i <= blockchain.chain@.len(),
            out@.len() == i,
            forall|j: int| 0 <= j < i ==> block_eq(#[trigger] out@[j], blockchain.chain@[j]),
        decreases blockchain.chain@.len() - i,
    {
        out.push(blockchain.chain[i].clone());
        i += 1;
    }
    out
}

/// The block at position `index`: present exactly when `index` is below the
/// block count, and then carrying that very position as its stored index.
pub fn get_block_by_index(blockchain: &BlockChain, index: u32) -> (r: Option<&Block>)
    ensures
        r is Some <==> (index as int) < blockchain.chain@.len(),
        r matches Some(b) ==> *b == blockchain.chain@[index as int],
        blockchain.wf() ==> (r matches Some(b) ==> b.index == index),
{
    if (index as usize) < blockchain.chain.len() {
        Some(&blockchain.chain[index as usize])
    } else {
        None
    }
}

/// The aggregate the status endpoint reports.
#[derive(Debug)]
pub struct BlockchainStatus {
    pub total_blocks: usize,
    pub connected_clients: usize,
    pub last_block_hash: Option<String>,
    pub timestamp: u64,
}

/// A point-in-time aggregate: block count, attached session count, the tail
/// block's hash, and the clock reading handed in by the caller.
pub fn get_blockchain_status(
    blockchain: &BlockChain,
    connection_manager: &ConnectionManager,
    timestamp: u64,
) -> (r: BlockchainStatus)
    requires
        connection_manager.wf(),
    ensures
        r.total_blocks == blockchain.chain@.len(),
        r.connected_clients as int == connection_manager.ids().len(),
        blockchain.chain@.len() == 0 ==> r.last_block_hash is None,
        blockchain.chain@.len() > 0 ==> (r.last_block_hash matches Some(h) && h@
            == blockchain.chain@.last().hash@),
        r.timestamp == timestamp,
{
    let total_blocks = blockchain.chain.len();
    let connected_clients = connection_manager.connection_count();
    let last_block_hash = if total_blocks > 0 {
        Some(blockchain.chain[total_blocks - 1].hash.clone())
    } else {
        None
    };
    BlockchainStatus { total_blocks, connected_clients, last_block_hash, timestamp }
}

/// One transaction as the flattened listing reports it: annotated with the
/// position and hash of the block that owns it.
#[derive(Debug)]
pub struct TransactionRecord {
    pub block_index: usize,
    pub from: String,
    pub to: String,
    pub amount: u64,
    pub fee: u64,
    pub block_hash: String,
}

/// The records of one block's transactions.
pub open spec fn block_records(bi: int, b: Block) -> Seq<TransactionRecord> {
    Seq::new(
        b.data.transaction_table@.len(),
        |j: int|
            TransactionRecord {
                block_index: bi as usize,
                from: b.data.transaction_table@[j].from,
                to: b.data.transaction_table@[j].to,
                amount: b.data.transaction_table@[j].amount,
                fee: b.data.transaction_table@[j].fee,
                block_hash: b.hash,
            },
    )
}

/// Every transaction of the chain, flattened in block order and, inside one
/// block, in table order.
pub open spec fn all_tx_records(chain: Seq<Block>) -> Seq<TransactionRecord>
    decreases chain.len(),
{
    if chain.len() == 0 {
        Seq::empty()
    } else {
        all_tx_records(chain.drop_last()) + block_records(chain.len() - 1, chain.last())
    }
}

proof fn lemma_all_tx_records_take_step(chain: Seq<Block>, i: int)
    requires
        0 <= i < chain.len(),
    ensures
        all_tx_records(chain.take(i + 1)) == all_tx_records(chain.take(i)) + block_records(
            i,
            chain[i],
        ),
{
    assert(chain.take(i + 1).drop_last() =~= chain.take(i));
    assert(chain.take(i + 1).last() == chain[i]);
}

/// Lists every transaction across the whole ledger, annotated with its
/// block's position and hash. A pure function of the ledger value.
pub fn get_all_transactions(blockchain: &BlockChain) -> (r: Vec<TransactionRecord>)
    ensures
        r@ == all_tx_records(blockchain.chain@),
{
    let ghost chain = blockchain.chain@;
    let mut out: Vec<TransactionRecord> = Vec::new();
    let mut i: usize = 0;
    proof {
        assert(chain.take(0) =~= Seq::<Block>::empty());
        assert(out@ =~= all_tx_records(chain.take(0)));
    }
    while i < blockchain.chain.len()
        invariant
            i <= chain.len(),
            chain == blockchain.chain@,
            out@ == all_tx_records(chain.take(i as int)),
        decreases chain.len() - i,
    {
        let block = &blockchain.chain[i];
        let mut j: usize = 0;
        while j < block.data.transaction_table.len()
            invariant
                i < chain.len(),
                chain == blockchain.chain@,
                block == &blockchain.chain@[i as int],
                j <= block.data.transaction_table@.len(),
                out@ == all_tx_records(chain.take(i as int)) + block_records(
                    i as int,
                    chain[i as int],
                ).take(j as int),
            decreases block.data.transaction_table@.len() - j,
        {
            let t = &block.data.transaction_table[j];
            let record = TransactionRecord {
                block_index: i,
                from: t.from.clone(),
                to: t.to.clone(),
                amount: t.amount,
                fee: t.fee,
                block_hash: block.hash.clone(),
            };
            out.push(record);
            proof {
                assert(block_records(i as int, chain[i as int]).take(j + 1) =~= block_records(
                    i as int,
                    chain[i as int],
                ).take(j as int).push(block_records(i as int, chain[i as int])[j as int]));
                assert(out@ =~= all_tx_records(chain.take(i as int)) + block_records(
                    i as int,
                    chain[i as int],
                ).take(j + 1));
            }
            j += 1;
        }
        proof {
            lemma_all_tx_records_take_step(chain, i as int);
            assert(block_records(i as int, chain[i as int]).take(
                block.data.transaction_table@.len() as int,
            ) =~= block_records(i as int, chain[i as int]));
            assert(out@ =~= all_tx_records(chain.take(i + 1)));
        }
        i += 1;
    }
    proof {
        assert(chain.take(chain.len() as int) =~= chain);
    }
    out
}

/// One transaction as the per-block listing reports it, signature included.
#[derive(Debug)]
pub struct BlockTransactionRecord {
    pub block_index: u32,
    pub from: String,
    pub to: String,
    pub amount: u64,
    pub fee: u64,
    pub block_hash: String,
    pub signature: Option<String>,
}

/// The detailed records of one block's transactions.
pub open spec fn block_tx_records(bi: u32, b: Block) -> Seq<BlockTransactionRecord> {
    Seq::new(
        b.data.transaction_table@.len(),
        |j: int|
            BlockTransactionRecord {
                block_index: bi,
                from: b.data.transaction_table@[j].from,
                to: b.data.transaction_table@[j].to,
                amount: b.data.transaction_table@[j].amount,
                fee: b.data.transaction_table@[j].fee,
                block_hash: b.hash,
                signature: b.data.transaction_table@[j].signature,
            },
    )
}

/// The transactions of the block at `block_index`, signature included:
/// present exactly when the position is below the block count.
pub fn get_block_transactions(blockchain: &BlockChain, block_index: u32) -> (r: Option<
    Vec<BlockTransactionRecord>,
>)
    ensures
        r is Some <==> (block_index as int) < blockchain.chain@.len(),
        r matches Some(v) ==> v@ == block_tx_records(
            block_index,
            blockchain.chain@[block_index as int],
        ),
{
    if (block_index as usize) >= blockchain.chain.len() {
        return None;
    }
    let block = &blockchain.chain[block_index as usize];
    let ghost records = block_tx_records(block_index, blockchain.chain@[block_index as int]);
    let mut out: Vec<BlockTransactionRecord> = Vec::new();
    let mut j: usize = 0;
    while j < block.data.transaction_table.len()
        invariant
            block == &blockchain.chain@[block_index as int],
            records == block_tx_records(block_index, blockchain.chain@[block_index as int]),
            j <= block.data.transaction_table@.len(),
            out@ == records.take(j as int),
        decreases block.data.transaction_table@.len() - j,
    {
        let t = &block.data.transaction_table[j];
        let record = BlockTransactionRecord {
            block_index,
            from: t.from.clone(),
            to: t.to.clone(),
            amount: t.amount,
            fee: t.fee,
            block_hash: block.hash.clone(),
            signature: match &t.signature {
                Some(s) => Some(s.clone()),
                None => None,
            },
        };
        out.push(record);
        proof {
            assert(records.take(j + 1) =~= records.take(j as int).push(records[j as int]));
        }
        j += 1;
    }
    proof {
        assert(records.take(block.data.transaction_table@.len() as int) =~= records);
    }
    Some(out)
}

/// Law: listing the transactions is a pure read. Any two results drawn from
/// the same ledger value — two runs with no intervening mutation — are
/// identical.
pub proof fn lemma_list_transactions_idempotent(
    c: BlockChain,
    r1: Seq<TransactionRecord>,
    r2: Seq<TransactionRecord>,
)
    requires
        r1 == all_tx_records(c.chain@),
        r2 == all_tx_records(c.chain@),
    ensures
        r1 == r2,
{
}

} // verus!
