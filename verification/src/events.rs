//! Domain events and their delivery. The event bus is a single-producer,
//! many-consumer broadcast with a bounded, lossy backlog: a publish never
//! waits for a consumer, and a consumer that falls more than the capacity
//! behind loses its oldest unread events, never their order. It is modelled
//! as a shared append-only log with one read cursor per subscriber.

use vstd::prelude::*;

verus! {

/// A notification of one ledger state transition. Immutable; value-copied to
/// every subscriber.
#[derive(Debug)]
pub enum BlockchainEvent {
    BlockMiningStarted { block_index: u32, miner: String, timestamp: u64 },
    BlockMined {
        block_index: u32,
        hash: String,
        miner: String,
        timestamp: u64,
        transactions_count: usize,
    },
    TransactionCreated { from: String, to: String, amount: u64, fee: u64, block_index: u32 },
    BlockchainUpdated { total_blocks: usize, total_transactions: usize },
}

impl Clone for BlockchainEvent {
    fn clone(&self) -> (r: Self)
        ensures
            r == *self,
    {
        match self {
            BlockchainEvent::BlockMiningStarted { block_index, miner, timestamp } => {
                BlockchainEvent::BlockMiningStarted {
                    block_index: *block_index,
                    miner: miner.clone(),
                    timestamp: *timestamp,
                }
            },
            BlockchainEvent::BlockMined { block_index, hash, miner, timestamp, transactions_count } => {
                BlockchainEvent::BlockMined {
                    block_index: *block_index,
                    hash: hash.clone(),
                    miner: miner.clone(),
                    timestamp: *timestamp,
                    transactions_count: *transactions_count,
                }
            },
            BlockchainEvent::TransactionCreated { from, to, amount, fee, block_index } => {
                BlockchainEvent::TransactionCreated {
                    from: from.clone(),
                    to: to.clone(),
                    amount: *amount,
                    fee: *fee,
                    block_index: *block_index,
                }
            },
            BlockchainEvent::BlockchainUpdated { total_blocks, total_transactions } => {
                BlockchainEvent::BlockchainUpdated {
                    total_blocks: *total_blocks,
                    total_transactions: *total_transactions,
                }
            },
        }
    }
}

/// What one receive attempt yields: the next event, a notice that `lost`
/// events were skipped because the subscriber lagged past the capacity, or
/// nothing pending right now.
#[derive(Debug)]
pub enum RecvOutcome {
    Event(BlockchainEvent),
    Lagged(usize),
    Empty,
}

/// How many cursors are still attached.
pub open spec fn active_count(cursors: Seq<Option<usize>>) -> int
    decreases cursors.len(),
{
    if cursors.len() == 0 {
        0
    } else {
        active_count(cursors.drop_last()) + if cursors.last() is Some { 1int } else { 0int }
    }
}

/// The central fan-out for [`BlockchainEvent`]s: an append-only log plus one
/// cursor per subscriber. A detached subscriber keeps its slot as `None`.
pub struct EventBus {
    log: Vec<BlockchainEvent>,
    capacity: usize,
    cursors: Vec<Option<usize>>,
}

impl EventBus {
    /// Every attached cursor points at or before the end of the log.
    pub closed spec fn wf(self) -> bool {
        &&& self.capacity > 0
        &&& forall|s: int|
            0 <= s < self.cursors@.len() && self.cursors@[s] is Some
                ==> #[trigger] self.cursors@[s]->0 <= self.log@.len()
    }

    pub closed spec fn spec_log(self) -> Seq<BlockchainEvent> {
        self.log@
    }

    pub closed spec fn spec_capacity(self) -> int {
        self.capacity as int
    }

    pub closed spec fn spec_cursors(self) -> Seq<Option<usize>> {
        self.cursors@
    }

    /// A fresh bus with the default backlog capacity of 100 and no
    /// subscribers.
    pub fn new() -> (r: Self)
        ensures
            r.wf(),
            r.spec_log().len() == 0,
            r.spec_capacity() == 100,
            r.spec_cursors().len() == 0,
    {
        EventBus { log: Vec::new(), capacity: 100, cursors: Vec::new() }
    }

    /// How many subscribers are currently attached.
    pub fn active_subscriber_count(&self) -> (r: usize)
        ensures
            r as int == active_count(self.spec_cursors()),
    {
        let mut count: usize = 0;
        let mut i: usize = 0;
        while i < self.cursors.len()
            invariant
                i <= self.cursors@.len(),
                count as int == active_count(self.cursors@.take(i as int)),
                count <= i,
            decreases self.cursors@.len() - i,
        {
            if self.cursors[i].is_some() {
                count += 1;
            }
            proof {
                assert(self.cursors@.take(i + 1).drop_last() =~= self.cursors@.take(i as int));
            }
            i += 1;
        }
        proof {
            assert(self.cursors@.take(self.cursors@.len() as int) =~= self.cursors@);
        }
        count
    }

    /// Whether `sid` names a currently attached subscriber.
    pub fn is_subscribed(&self, sid: usize) -> (r: bool)
        ensures
            r == (sid < self.spec_cursors().len() && self.spec_cursors()[sid as int] is Some),
    {
        sid < self.cursors.len() && self.cursors[sid].is_some()
    }

    /// Attaches a new subscriber, whose cursor starts at the end of the log:
    /// it sees exactly the events published after this call.
    pub fn subscribe(&mut self) -> (sid: usize)
        requires
            old(self).wf(),
        ensures
            final(self).wf(),
            sid == old(self).spec_cursors().len(),
            final(self).spec_cursors() == old(self).spec_cursors().push(
                Some(old(self).spec_log().len() as usize),
            ),
            final(self).spec_log() == old(self).spec_log(),
            final(self).spec_capacity() == old(self).spec_capacity(),
    {
        let sid = self.cursors.len();
        let at = self.log.len();
        self.cursors.push(Some(at));
        sid
    }

    /// Detaches a subscriber; its slot stays behind as `None`.
    pub fn unsubscribe(&mut self, sid: usize)
        requires
            old(self).wf(),
            sid < old(self).spec_cursors().len(),
        ensures
            final(self).wf(),
            final(self).spec_cursors() == old(self).spec_cursors().update(sid as int, None::<usize>),
            final(self).spec_log() == old(self).spec_log(),
            final(self).spec_capacity() == old(self).spec_capacity(),
    {
        self.cursors.set(sid, None);
    }

    /// Publishes one event. With no attached subscriber the event is dropped
    /// on the floor; otherwise it is appended to the log. Either way the call
    /// returns at once: the producer never waits for a consumer and no error
    /// is possible.
    pub fn broadcast(&mut self, event: BlockchainEvent)
        requires
            old(self).wf(),
        ensures
            final(self).wf(),
            final(self).spec_cursors() == old(self).spec_cursors(),
            final(self).spec_capacity() == old(self).spec_capacity(),
            active_count(old(self).spec_cursors()) == 0 ==> final(self).spec_log() == old(
                self,
            ).spec_log(),
            active_count(old(self).spec_cursors()) > 0 ==> final(self).spec_log() == old(
                self,
            ).spec_log().push(event),
    {
        let receivers = self.active_subscriber_count();
        if receivers == 0 {
            return ;
        }
        self.log.push(event);
    }

    /// One receive attempt for subscriber `sid`. Delivery is in log order:
    /// either the event under the cursor, or — when the cursor has fallen
    /// more than `capacity` behind — a `Lagged` notice that advances the
    /// cursor to the oldest still-retained entry, or `Empty` when the
    /// subscriber has seen everything published so far.
    pub fn recv(&mut self, sid: usize) -> (r: RecvOutcome)
        requires
            old(self).wf(),
            sid < old(self).spec_cursors().len(),
            old(self).spec_cursors()[sid as int] is Some,
        ensures
            final(self).wf(),
            final(self).spec_log() == old(self).spec_log(),
            final(self).spec_capacity() == old(self).spec_capacity(),
            final(self).spec_cursors().len() == old(self).spec_cursors().len(),
            forall|s: int|
                0 <= s < old(self).spec_cursors().len() && s != sid
                    ==> final(self).spec_cursors()[s] == old(self).spec_cursors()[s],
            // Delivery never moves backwards: even across a lag the events a
            // subscriber sees stay in publish order.
            final(self).spec_cursors()[sid as int] is Some && final(self).spec_cursors()[
                sid as int
            ]->0 >= old(self).spec_cursors()[sid as int]->0,
            ({
                let c = old(self).spec_cursors()[sid as int]->0 as int;
                let len = old(self).spec_log().len() as int;
                let cap = old(self).spec_capacity();
                if len - c > cap {
                    &&& r matches RecvOutcome::Lagged(lost) && lost as int == len - cap - c
                    &&& final(self).spec_cursors()[sid as int] == Some((len - cap) as usize)
                } else if c == len {
                    &&& r is Empty
                    &&& final(self).spec_cursors()[sid as int] == old(self).spec_cursors()[sid as int]
                } else {
                    &&& r matches RecvOutcome::Event(e) && e == old(self).spec_log()[c]
                    &&& final(self).spec_cursors()[sid as int] == Some((c + 1) as usize)
                }
            }),
    {
        let c = match self.cursors[sid] {
            Some(c) => c,
            None => unreached(),
        };
        let len = self.log.len();
        if len - c > self.capacity {
            let retained_from = len - self.capacity;
            self.cursors.set(sid, Some(retained_from));
            RecvOutcome::Lagged(retained_from - c)
        } else if c == len {
            RecvOutcome::Empty
        } else {
            let event = self.log[c].clone();
            self.cursors.set(sid, Some(c + 1));
            RecvOutcome::Event(event)
        }
    }

    /// Receives everything currently pending for `sid`. For a subscriber
    /// whose backlog has not exceeded the capacity — one that never stalled —
    /// the result is exactly the log segment published since its cursor, in
    /// publish order.
    pub fn drain(&mut self, sid: usize) -> (r: Vec<BlockchainEvent>)
        requires
            old(self).wf(),
            sid < old(self).spec_cursors().len(),
            old(self).spec_cursors()[sid as int] is Some,
            old(self).spec_log().len() - old(self).spec_cursors()[sid as int]->0 <= old(
                self,
            ).spec_capacity(),
        ensures
            final(self).wf(),
            final(self).spec_log() == old(self).spec_log(),
            final(self).spec_capacity() == old(self).spec_capacity(),
            final(self).spec_cursors().len() == old(self).spec_cursors().len(),
            forall|s: int|
                0 <= s < old(self).spec_cursors().len() && s != sid
                    ==> final(self).spec_cursors()[s] == old(self).spec_cursors()[s],
            final(self).spec_cursors()[sid as int] == Some(old(self).spec_log().len() as usize),
            r@ == old(self).spec_log().subrange(
                old(self).spec_cursors()[sid as int]->0 as int,
                old(self).spec_log().len() as int,
            ),
    {
        let ghost c0 = old(self).spec_cursors()[sid as int]->0 as int;
        let ghost log0 = old(self).spec_log();
        let ghost cap0 = old(self).spec_capacity();
        let ghost cursors0 = old(self).spec_cursors();
        let len_now = self.log.len();
        proof {
            assert(log0.len() == len_now as int);
        }
        let mut out: Vec<BlockchainEvent> = Vec::new();
        loop
            invariant
                self.wf(),
                sid < cursors0.len(),
                0 <= c0 <= log0.len(),
                log0.len() <= usize::MAX,
                log0 == old(self).spec_log(),
                cap0 == old(self).spec_capacity(),
                cursors0 == old(self).spec_cursors(),
                c0 == cursors0[sid as int]->0,
                self.spec_log() == log0,
                self.spec_capacity() == cap0,
                self.spec_cursors().len() == cursors0.len(),
                forall|s: int|
                    0 <= s < cursors0.len() && s != sid ==> self.spec_cursors()[s] == cursors0[s],
                self.spec_cursors()[sid as int] is Some,
                c0 <= self.spec_cursors()[sid as int]->0 <= log0.len(),
                log0.len() - self.spec_cursors()[sid as int]->0 <= cap0,
                out@ == log0.subrange(c0, self.spec_cursors()[sid as int]->0 as int),
            decreases log0.len() - self.spec_cursors()[sid as int]->0,
        {
            let ghost cur = self.spec_cursors()[sid as int]->0 as int;
            match self.recv(sid) {
                RecvOutcome::Event(e) => {
                    out.push(e);
                    proof {
                        assert(self.spec_cursors()[sid as int] == Some((cur + 1) as usize));
                        assert(cur < log0.len());
                        assert(log0.subrange(c0, cur + 1) =~= log0.subrange(c0, cur).push(
                            log0[cur],
                        ));
                    }
                },
                RecvOutcome::Lagged(_) => {
                    proof {
                        assert(false);
                    }
                },
                RecvOutcome::Empty => {
                    return out;
                },
            }
        }
    }
}

/// Bookkeeping of the currently attached streaming sessions, keyed by their
/// 128-bit identifiers; used only for the status query's connection count.
pub struct ConnectionManager {
    connections: Vec<u128>,
}

impl ConnectionManager {
    /// No identifier is recorded twice.
    pub closed spec fn wf(self) -> bool {
        self.connections@.no_duplicates()
    }

    /// The set of attached session identifiers.
    pub closed spec fn ids(self) -> Set<u128> {
        self.connections@.to_set()
    }

    pub fn new() -> (r: Self)
        ensures
            r.wf(),
            r.ids() =~= Set::<u128>::empty(),
    {
        ConnectionManager { connections: Vec::new() }
    }

    /// Whether `id` is currently attached.
    pub fn contains(&self, id: u128) -> (r: bool)
        ensures
            r == self.ids().contains(id),
    {
        let mut i: usize = 0;
        while i < self.connections.len()
            invariant
                i <= self.connections@.len(),
                forall|j: int| 0 <= j < i ==> self.connections@[j] != id,
            decreases self.connections@.len() - i,
        {
            if self.connections[i] == id {
                proof {
                    assert(self.connections@.contains(id));
                }
                return true;
            }
            i += 1;
        }
        proof {
            assert(!self.connections@.contains(id));
        }
        false
    }

    /// Records a newly attached session. Attaching an identifier that is
    /// already present changes nothing.
    pub fn add_connection(&mut self, id: u128)
        requires
            old(self).wf(),
        ensures
            final(self).wf(),
            final(self).ids() =~= old(self).ids().insert(id),
    {
        if !self.contains(id) {
            self.connections.push(id);
            proof {
                let pre = old(self).connections@;
                assert forall|x: u128| self.ids().contains(x) implies old(self).ids().insert(
                    id,
                ).contains(x) by {
                    let k = choose|k: int|
                        0 <= k < self.connections@.len() && self.connections@[k] == x;
                    if k < pre.len() {
                        assert(pre[k] == x);
                        assert(pre.contains(x));
                    }
                }
                assert forall|x: u128| old(self).ids().insert(id).contains(x) implies self
                    .ids().contains(x) by {
                    if x == id {
                        assert(self.connections@[pre.len() as int] == id);
                    } else {
                        let k = choose|k: int| 0 <= k < pre.len() && pre[k] == x;
                        assert(self.connections@[k] == x);
                    }
                    assert(self.connections@.contains(x));
                }
                assert(self.ids() =~= old(self).ids().insert(id));
                assert forall|i: int, j: int|
                    0 <= i < j < self.connections@.len() implies self.connections@[i]
                    != self.connections@[j] by {
                    if j == pre.len() {
                        assert(pre[i] == self.connections@[i]);
                        assert(pre.contains(self.connections@[i]));
                    }
                }
            }
        } else {
            proof {
                assert(old(self).ids().insert(id) =~= old(self).ids());
            }
        }
    }

    /// Removes a detached session. Removing an identifier that is absent
    /// changes nothing.
    pub fn remove_connection(&mut self, id: u128)
        requires
            old(self).wf(),
        ensures
            final(self).wf(),
            final(self).ids() =~= old(self).ids().remove(id),
    {
        let mut i: usize = 0;
        while i < self.connections.len()
            invariant
                self.wf(),
                i <= self.connections@.len(),
                self == old(self),
                forall|j: int| 0 <= j < i ==> self.connections@[j] != id,
            decreases self.connections@.len() - i,
        {
            if self.connections[i] == id {
                let ghost pre = self.connections@;
                self.connections.remove(i);
                proof {
                    assert forall|x: u128| self.ids().contains(x) implies old(self).ids()
                        .remove(id).contains(x) by {
                        let k = choose|k: int|
                            0 <= k < self.connections@.len() && self.connections@[k] == x;
                        if k < i {
                            assert(pre[k] == x);
                        } else {
                            assert(pre[k + 1] == x);
                        }
                        assert(pre.contains(x));
                        if x == id {
                            if k < i {
                                assert(pre[k] == id && pre[i as int] == id);
                            } else {
                                assert(pre[k + 1] == id && pre[i as int] == id);
                            }
                        }
                    }
                    assert forall|x: u128| old(self).ids().remove(id).contains(x) implies self
                        .ids().contains(x) by {
                        let k = choose|k: int| 0 <= k < pre.len() && pre[k] == x;
                        if k < i {
                            assert(self.connections@[k] == x);
                        } else if k == i {
                            assert(false);
                        } else {
                            assert(self.connections@[k - 1] == x);
                        }
                        assert(self.connections@.contains(x));
                    }
                    assert(self.ids() =~= old(self).ids().remove(id));
                }
                return ;
            }
            i += 1;
        }
        proof {
            assert(!self.connections@.contains(id));
            assert(old(self).ids().remove(id) =~= old(self).ids());
        }
    }

    /// The set of attached identifiers is finite — so a caller may reason
    /// about the cardinality of inserts and removals on it.
    pub proof fn lemma_ids_finite(self)
        ensures
            self.ids().finite(),
    {
        broadcast use vstd::seq_lib::seq_to_set_is_finite;

    }

    /// How many sessions are attached.
    pub fn connection_count(&self) -> (r: usize)
        requires
            self.wf(),
        ensures
            r as int == self.ids().len(),
    {
        proof {
            self.connections@.unique_seq_to_set();
        }
        self.connections.len()
    }
}

} // verus!
