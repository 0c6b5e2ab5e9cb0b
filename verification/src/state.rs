//! What a sync client watches, and what is queued for the next sync run.
use vstd::prelude::*;
use crate::keyset::KeySet;
use crate::types::{BlockHash, OutPoint, Txid};

verus! {

/// The state kept between sync runs.
pub struct SyncState {
    /// Transactions whose confirmation is watched.
    pub watched_transactions: KeySet<Txid>,
    /// Outputs whose spending is watched.
    pub watched_outputs: KeySet<OutPoint>,
    /// The chain tip that the last complete run brought the node up to.
    pub last_sync_hash: Option<BlockHash>,
    /// Whether a run failed or met an inconsistency since the last complete run.
    pub pending_sync: bool,
}

impl SyncState {
    /// Both watch sets hold nothing twice.
    pub open spec fn wf(&self) -> bool {
        self.watched_transactions.wf() && self.watched_outputs.wf()
    }

    /// A state that watches nothing and has never synced.
    pub fn new() -> (s: Self)
        ensures
            s.wf(),
            s.watched_transactions@ == Set::<Txid>::empty(),
            s.watched_outputs@ == Set::<OutPoint>::empty(),
            s.last_sync_hash == None::<BlockHash>,
            s.pending_sync == false,
    {
        SyncState {
            watched_transactions: KeySet::new(),
            watched_outputs: KeySet::new(),
            last_sync_hash: None,
            pending_sync: false,
        }
    }
}

/// Transactions and outputs registered since the last sync run.
pub struct FilterQueue {
    /// Registered transactions.
    pub transactions: KeySet<Txid>,
    /// Registered outputs.
    pub outputs: KeySet<OutPoint>,
}

impl FilterQueue {
    /// Both queues hold nothing twice.
    pub open spec fn wf(&self) -> bool {
        self.transactions.wf() && self.outputs.wf()
    }

    /// Whether nothing is queued.
    pub open spec fn is_idle(&self) -> bool {
        self.transactions@ == Set::<Txid>::empty() && self.outputs@ == Set::<OutPoint>::empty()
    }

    /// An empty queue.
    pub fn new() -> (q: Self)
        ensures
            q.wf(),
            q.is_idle(),
    {
        FilterQueue { transactions: KeySet::new(), outputs: KeySet::new() }
    }

    /// Queues a transaction to be watched for confirmation.
    pub fn register_tx(&mut self, txid: Txid)
        requires
            old(self).wf(),
        ensures
            final(self).wf(),
            final(self).transactions@ == old(self).transactions@.insert(txid),
            final(self).outputs@ == old(self).outputs@,
    {
        self.transactions.insert(txid);
    }

    /// Queues an output to be watched for spending.
    pub fn register_output(&mut self, outpoint: OutPoint)
        requires
            old(self).wf(),
        ensures
            final(self).wf(),
            final(self).outputs@ == old(self).outputs@.insert(outpoint),
            final(self).transactions@ == old(self).transactions@,
    {
        self.outputs.insert(outpoint);
    }

    /// Moves the queued transactions and outputs into the watch sets of `sync_state`.
    /// Returns `true` if anything had been queued.
    pub fn process_queues(&mut self, sync_state: &mut SyncState) -> (pending_registrations: bool)
        requires
            old(self).wf(),
            old(sync_state).wf(),
        ensures
            final(self).wf(),
            final(sync_state).wf(),
            final(self).is_idle(),
            pending_registrations == !old(self).is_idle(),
            final(sync_state).watched_transactions@
                == old(sync_state).watched_transactions@.union(old(self).transactions@),
            final(sync_state).watched_outputs@
                == old(sync_state).watched_outputs@.union(old(self).outputs@),
            final(sync_state).last_sync_hash == old(sync_state).last_sync_hash,
            final(sync_state).pending_sync == old(sync_state).pending_sync,
    {
        let mut pending_registrations = false;
        if !self.transactions.is_empty() {
            pending_registrations = true;
            self.transactions.drain_into(&mut sync_state.watched_transactions);
        } else {
            assert(sync_state.watched_transactions@ =~= old(sync_state).watched_transactions@.union(
                old(self).transactions@,
            ));
        }
        if !self.outputs.is_empty() {
            pending_registrations = true;
            self.outputs.drain_into(&mut sync_state.watched_outputs);
        } else {
            assert(sync_state.watched_outputs@ =~= old(sync_state).watched_outputs@.union(
                old(self).outputs@,
            ));
        }
        pending_registrations
    }
}

/// A transaction that was registered is watched once the queue has been processed,
/// along with everything that was watched before.
pub proof fn law_registered_tx_is_watched(
    q0: FilterQueue,
    q1: FilterQueue,
    s1: SyncState,
    s2: SyncState,
    txid: Txid,
)
    requires
        q1.transactions@ == q0.transactions@.insert(txid),
        s2.watched_transactions@ == s1.watched_transactions@.union(q1.transactions@),
    ensures
        s2.watched_transactions@.contains(txid),
        s1.watched_transactions@.subset_of(s2.watched_transactions@),
{
}

/// An output that was registered is watched once the queue has been processed,
/// along with everything that was watched before.
pub proof fn law_registered_output_is_watched(
    q0: FilterQueue,
    q1: FilterQueue,
    s1: SyncState,
    s2: SyncState,
    outpoint: OutPoint,
)
    requires
        q1.outputs@ == q0.outputs@.insert(outpoint),
        s2.watched_outputs@ == s1.watched_outputs@.union(q1.outputs@),
    ensures
        s2.watched_outputs@.contains(outpoint),
        s1.watched_outputs@.subset_of(s2.watched_outputs@),
{
}

} // verus!
