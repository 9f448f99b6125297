use blockchain_sim::encode::encode_event;
use blockchain_sim::events::{BlockchainEvent, ConnectionManager, EventBus, RecvOutcome};
use blockchain_sim::session::{session_step, SessionAction, SessionInput, SessionPhase, SessionState};

fn updated(n: usize) -> BlockchainEvent {
    BlockchainEvent::BlockchainUpdated {
        total_blocks: n,
        total_transactions: n,
    }
}

#[test]
fn publish_with_no_subscriber_is_dropped() {
    let mut bus = EventBus::new();
    assert_eq!(bus.active_subscriber_count(), 0);
    // Never blocks, never errors: the call simply returns.
    bus.broadcast(updated(1));
    // A later subscriber starts at the end of the log and sees nothing.
    let sid = bus.subscribe();
    assert!(matches!(bus.recv(sid), RecvOutcome::Empty));
}

#[test]
fn subscriber_receives_all_events_in_order() {
    let mut bus = EventBus::new();
    let sid = bus.subscribe();
    assert_eq!(bus.active_subscriber_count(), 1);
    for n in 0..5 {
        bus.broadcast(updated(n));
    }
    let events = bus.drain(sid);
    assert_eq!(events.len(), 5);
    for (n, e) in events.iter().enumerate() {
        match e {
            BlockchainEvent::BlockchainUpdated { total_blocks, .. } => {
                assert_eq!(*total_blocks, n);
            }
            _ => panic!("unexpected event"),
        }
    }
    assert!(matches!(bus.recv(sid), RecvOutcome::Empty));
}

#[test]
fn slow_subscriber_skips_but_keeps_order() {
    let mut bus = EventBus::new();
    let fast = bus.subscribe();
    let slow = bus.subscribe();
    // 150 publishes against a capacity of 100; the fast reader keeps up.
    for n in 0..150 {
        bus.broadcast(updated(n));
        match bus.recv(fast) {
            RecvOutcome::Event(BlockchainEvent::BlockchainUpdated { total_blocks, .. }) => {
                assert_eq!(total_blocks, n);
            }
            _ => panic!("fast reader should see every event"),
        }
    }
    // The slow reader lagged: it is told how many events it lost ...
    match bus.recv(slow) {
        RecvOutcome::Lagged(lost) => assert_eq!(lost, 50),
        _ => panic!("slow reader should observe the lag"),
    }
    // ... and everything it still receives is in publish order.
    let mut expected = 50;
    loop {
        match bus.recv(slow) {
            RecvOutcome::Event(BlockchainEvent::BlockchainUpdated { total_blocks, .. }) => {
                assert_eq!(total_blocks, expected);
                expected += 1;
            }
            RecvOutcome::Empty => break,
            _ => panic!("no further lag expected"),
        }
    }
    assert_eq!(expected, 150);
}

#[test]
fn unsubscribe_frees_the_slot() {
    let mut bus = EventBus::new();
    let a = bus.subscribe();
    let _b = bus.subscribe();
    assert_eq!(bus.active_subscriber_count(), 2);
    bus.unsubscribe(a);
    assert_eq!(bus.active_subscriber_count(), 1);
}

#[test]
fn connection_manager_counts_unique_ids() {
    let mut cm = ConnectionManager::new();
    assert_eq!(cm.connection_count(), 0);
    cm.add_connection(7);
    cm.add_connection(9);
    cm.add_connection(7);
    assert_eq!(cm.connection_count(), 2);
    assert!(cm.contains(7));
    cm.remove_connection(7);
    assert_eq!(cm.connection_count(), 1);
    assert!(!cm.contains(7));
    cm.remove_connection(7);
    assert_eq!(cm.connection_count(), 1);
}

#[test]
fn event_frames_are_exact() {
    let e = BlockchainEvent::BlockMined {
        block_index: 3,
        hash: "00ab".to_string(),
        miner: "say \"hi\"".to_string(),
        timestamp: 42,
        transactions_count: 2,
    };
    assert_eq!(
        encode_event(&e),
        "{\"BlockMined\":{\"block_index\":3,\"hash\":\"00ab\",\"miner\":\"say \\\"hi\\\"\",\"timestamp\":42,\"transactions_count\":2}}"
    );
    let u = updated(2);
    assert_eq!(
        encode_event(&u),
        "{\"BlockchainUpdated\":{\"total_blocks\":2,\"total_transactions\":2}}"
    );
    // A control character in a text field becomes its four-digit escape, so
    // the frame stays a single line of valid quoted text.
    let e = BlockchainEvent::BlockMiningStarted {
        block_index: 1,
        miner: "a\nb\u{1b}".to_string(),
        timestamp: 7,
    };
    assert_eq!(
        encode_event(&e),
        "{\"BlockMiningStarted\":{\"block_index\":1,\"miner\":\"a\\u000ab\\u001b\",\"timestamp\":7}}"
    );
}

#[test]
fn session_lifecycle() {
    let s0 = SessionState::begin();
    assert_eq!(s0.phase, SessionPhase::Handshaking);

    // A failed handshake abandons only this attempt: no registration, no
    // teardown.
    let (dead, act) = session_step(s0, SessionInput::HandshakeFailed);
    assert_eq!(dead.phase, SessionPhase::Ended);
    assert!(matches!(act, SessionAction::NoAction));

    // A successful handshake registers the session.
    let (s1, act) = session_step(SessionState::begin(), SessionInput::HandshakeCompleted);
    assert!(matches!(act, SessionAction::Register));
    assert_eq!(s1.phase, SessionPhase::Active);

    // Inbound "ping" is acknowledged; other text carries no authority.
    let (s1, act) = session_step(s1, SessionInput::InboundText("ping".to_string()));
    assert!(matches!(act, SessionAction::AcknowledgePing));
    let (s1, act) = session_step(s1, SessionInput::InboundText("drop tables".to_string()));
    assert!(matches!(act, SessionAction::NoAction));

    // An outbound event becomes its encoded frame.
    let (s1, act) = session_step(s1, SessionInput::OutboundEvent(updated(1)));
    match act {
        SessionAction::SendFrame(f) => assert_eq!(
            f,
            "{\"BlockchainUpdated\":{\"total_blocks\":1,\"total_transactions\":1}}"
        ),
        _ => panic!("expected a frame"),
    }

    // A failed write tears the session down, exactly once.
    let (s2, act) = session_step(s1, SessionInput::WriteFailed);
    assert!(matches!(act, SessionAction::Teardown));
    assert_eq!(s2.phase, SessionPhase::Ended);
    let (s3, act) = session_step(s2, SessionInput::InboundClosed);
    assert!(matches!(act, SessionAction::NoAction));
    assert_eq!(s3.phase, SessionPhase::Ended);
}

#[test]
fn backlog_at_capacity_boundary() {
    let mut bus = EventBus::new();
    let sid = bus.subscribe();
    // A backlog of exactly the capacity is still delivered in full.
    for n in 0..100 {
        bus.broadcast(updated(n));
    }
    let events = bus.drain(sid);
    assert_eq!(events.len(), 100);
    // One more publish beyond the capacity loses exactly the oldest event.
    for n in 0..101 {
        bus.broadcast(updated(n));
    }
    match bus.recv(sid) {
        RecvOutcome::Lagged(lost) => assert_eq!(lost, 1),
        _ => panic!("expected a lag of one"),
    }
    match bus.recv(sid) {
        RecvOutcome::Event(BlockchainEvent::BlockchainUpdated { total_blocks, .. }) => {
            assert_eq!(total_blocks, 1);
        }
        _ => panic!("expected the second event"),
    }
}

