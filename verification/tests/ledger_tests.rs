use blockchain_sim::events::{BlockchainEvent, EventBus};
use blockchain_sim::ledger::{
    create_transaction, Block, BlockChain, BlockchainError, MultipleTransactions, Transaction,
};
use blockchain_sim::query::{
    get_all_transactions, get_block_by_index, get_block_transactions, parse_route, ApiRoute,
};

fn two_tx_block(chain: &BlockChain, bus: &EventBus) -> Block {
    let t1 = create_transaction("A", "B", 100, 1, 1, bus);
    let t2 = create_transaction("B", "A", 50, 1, 1, bus);
    let data = MultipleTransactions {
        transaction_table: vec![t1, t2],
    };
    Block::new(chain.get_total_block() as u32, String::new(), data, Ok(1_700_000_000)).unwrap()
}

#[test]
fn genesis_ledger() {
    let chain = BlockChain::new(Ok(1_700_000_000)).unwrap();
    assert_eq!(chain.get_total_block(), 1);
    assert_eq!(chain.chain[0].index, 0);
    assert_eq!(chain.chain[0].prev_hash, "");
    assert_eq!(chain.chain[0].hash, "");
    assert!(chain.chain[0].data.transaction_table.is_empty());
}

#[test]
fn clock_failure_surfaces_time_error() {
    let r = BlockChain::new(Err("clock went away".to_string()));
    match r {
        Err(BlockchainError::TimeError(m)) => {
            assert_eq!(m, "Time Error : clock went away");
        }
        _ => panic!("expected a time error"),
    }
    let b = Block::new(
        0,
        String::new(),
        MultipleTransactions {
            transaction_table: vec![],
        },
        Err("no clock".to_string()),
    );
    assert!(matches!(b, Err(BlockchainError::TimeError(_))));
}

#[test]
fn mined_block_links_and_meets_difficulty() {
    let mut chain = BlockChain::new(Ok(1_700_000_000)).unwrap();
    let mut bus = EventBus::new();
    let block = two_tx_block(&chain, &bus);
    let added = chain.add_new_block(block, &mut bus, "miner");
    assert!(added);
    assert_eq!(chain.get_total_block(), 2);
    let mined = &chain.chain[1];
    // The chain links by hash, and the stored hash is reproduced by
    // recomputing the digest of the block's own preimage.
    assert_eq!(mined.prev_hash, chain.chain[0].hash);
    assert!(mined.hash.starts_with("00"));
    assert_eq!(mined.calculate_hash(), mined.hash);
    assert_eq!(mined.hash.len(), 64);
}

#[test]
fn transaction_fields() {
    let bus = EventBus::new();
    let t = create_transaction("alice", "bob", 1000, 10, 1, &bus);
    assert_eq!(t.from, "alice");
    assert_eq!(t.to, "bob");
    assert_eq!(t.amount, 1000);
    assert_eq!(t.fee, 10);
    assert!(t.signature.is_none());
}

#[test]
fn transaction_display_text() {
    let t = Transaction {
        from: "a".to_string(),
        to: "b".to_string(),
        amount: 5,
        fee: 2,
        signature: None,
    };
    assert_eq!(t.display_string(), "From: a To: b Amount: 5 Fee: 2");
    let m = MultipleTransactions {
        transaction_table: vec![t],
    };
    assert_eq!(
        m.display_string(),
        "Transaction 1: From: a To: b Amount: 5 Fee: 2 "
    );
}

#[test]
fn get_block_in_and_out_of_range() {
    let mut chain = BlockChain::new(Ok(1_700_000_000)).unwrap();
    let mut bus = EventBus::new();
    let block = two_tx_block(&chain, &bus);
    assert!(chain.add_new_block(block, &mut bus, "miner"));
    // In range: the block whose stored index equals the query.
    let b1 = get_block_by_index(&chain, 1).unwrap();
    assert_eq!(b1.index, 1);
    // Out of range: not found, for every index at or past the block count.
    assert!(get_block_by_index(&chain, 2).is_none());
    assert!(get_block_by_index(&chain, 5).is_none());
}

#[test]
fn list_transactions_twice_identical() {
    let mut chain = BlockChain::new(Ok(1_700_000_000)).unwrap();
    let mut bus = EventBus::new();
    let block = two_tx_block(&chain, &bus);
    assert!(chain.add_new_block(block, &mut bus, "miner"));
    let first = get_all_transactions(&chain);
    let second = get_all_transactions(&chain);
    assert_eq!(first.len(), second.len());
    for (a, b) in first.iter().zip(second.iter()) {
        assert_eq!(a.block_index, b.block_index);
        assert_eq!(a.from, b.from);
        assert_eq!(a.to, b.to);
        assert_eq!(a.amount, b.amount);
        assert_eq!(a.fee, b.fee);
        assert_eq!(a.block_hash, b.block_hash);
    }
}

#[test]
fn end_to_end_one_block_with_subscriber() {
    // Genesis only.
    let mut chain = BlockChain::new(Ok(1_700_000_000)).unwrap();
    assert_eq!(chain.get_total_block(), 1);
    let mut bus = EventBus::new();
    // A subscriber attaches before anything is published.
    let sid = bus.subscribe();
    // Two transactions, announced before the block is mined, as the round
    // driver does.
    let t1 = create_transaction("A", "B", 100, 1, 1, &bus);
    let t2 = create_transaction("B", "A", 50, 1, 1, &bus);
    for t in [&t1, &t2] {
        bus.broadcast(BlockchainEvent::TransactionCreated {
            from: t.from.clone(),
            to: t.to.clone(),
            amount: t.amount,
            fee: t.fee,
            block_index: 1,
        });
    }
    let data = MultipleTransactions {
        transaction_table: vec![t1, t2],
    };
    let block = Block::new(1, String::new(), data, Ok(1_700_000_100)).unwrap();
    assert!(chain.add_new_block(block, &mut bus, "miner"));

    assert_eq!(chain.get_total_block(), 2);
    assert_eq!(
        get_block_by_index(&chain, 1).unwrap().data.transaction_table.len(),
        2
    );
    assert_eq!(get_all_transactions(&chain).len(), 2);
    let detail = get_block_transactions(&chain, 1).unwrap();
    assert_eq!(detail.len(), 2);
    assert_eq!(detail[0].from, "A");
    assert_eq!(detail[1].amount, 50);

    // The subscriber received the two transaction events, then the mining
    // start, the mined hash, and the ledger update, in that order.
    let events = bus.drain(sid);
    assert_eq!(events.len(), 5);
    assert!(matches!(
        events[0],
        BlockchainEvent::TransactionCreated { amount: 100, .. }
    ));
    assert!(matches!(
        events[1],
        BlockchainEvent::TransactionCreated { amount: 50, .. }
    ));
    assert!(matches!(
        events[2],
        BlockchainEvent::BlockMiningStarted { block_index: 1, .. }
    ));
    assert!(matches!(
        events[3],
        BlockchainEvent::BlockMined { block_index: 1, transactions_count: 2, .. }
    ));
    assert!(matches!(
        events[4],
        BlockchainEvent::BlockchainUpdated { total_blocks: 2, total_transactions: 2 }
    ));
}

#[test]
fn query_block_five_of_two_block_ledger_not_found() {
    let mut chain = BlockChain::new(Ok(1_700_000_000)).unwrap();
    let mut bus = EventBus::new();
    let block = two_tx_block(&chain, &bus);
    assert!(chain.add_new_block(block, &mut bus, "miner"));
    assert_eq!(chain.get_total_block(), 2);
    match parse_route("/api/blocks/5") {
        ApiRoute::BlockByIndex(i) => {
            assert_eq!(i, 5);
            assert!(get_block_by_index(&chain, i).is_none());
            assert!(get_block_transactions(&chain, i).is_none());
        }
        other => panic!("unexpected route {:?}", other),
    }
}

#[test]
fn total_transactions_accumulates() {
    let mut chain = BlockChain::new(Ok(1_700_000_000)).unwrap();
    let mut bus = EventBus::new();
    assert_eq!(chain.total_transactions(), 0);
    let block = two_tx_block(&chain, &bus);
    assert!(chain.add_new_block(block, &mut bus, "miner"));
    assert_eq!(chain.total_transactions(), 2);
}

#[test]
fn append_takes_a_detached_mined_candidate() {
    let chain = BlockChain::new(Ok(1_700_000_000)).unwrap();
    let bus = EventBus::new();
    // Link a candidate against the tail, mine it away from the ledger, and
    // append in one constant-time step.
    let prev_hash = chain.chain[0].hash.clone();
    let t = create_transaction("A", "B", 100, 1, 1, &bus);
    let data = MultipleTransactions {
        transaction_table: vec![t],
    };
    let mut candidate = Block::new(1, prev_hash, data, Ok(1_700_000_050)).unwrap();
    assert!(candidate.mine(2));
    let mut chain = chain;
    let hash = candidate.hash.clone();
    chain.append(candidate);
    assert_eq!(chain.get_total_block(), 2);
    assert_eq!(chain.chain[1].hash, hash);
    assert_eq!(chain.chain[1].prev_hash, chain.chain[0].hash);
    assert!(hash.starts_with("00"));
}

