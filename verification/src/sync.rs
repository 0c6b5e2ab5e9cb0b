//! The decisions of one sync run, as a machine driven by the results of outside calls.
//!
//! A run starts with [`SyncRun::start`], which asks for the best block hash. The caller
//! performs each [`SyncAction`] (a remote procedure call to `bitcoind` or a notification
//! of the Lightning node) and hands the outcome back to [`SyncRun::step`] as a
//! [`SyncEvent`], until the action is [`SyncAction::Finish`].
use vstd::prelude::*;
use vstd::multiset::Multiset;
use crate::chain::{best_block_outcome, best_block_update, dedup_relevant, first_index_of};
use crate::confirm::{
    block_txids, collect_spends, confirmed_of_block, confirmed_sorted, confirmed_txids,
    law_block_spend_collected, position_of_tx, sort_confirmed, spends_in_block, spends_watched, spent_outpoints, unwatch_confirmed,
    watch_unconfirmed, BlockTx, ConfirmedTx,
};
use crate::error::TxSyncError;
use crate::state::{FilterQueue, SyncState};
use crate::types::{BlockHash, ChainTip, Key, OutPoint, Txid};

verus! {

/// Where a run stands: which outcome it waits for.
#[derive(Debug, Clone, Copy, PartialEq, Eq, Structural)]
pub enum Phase {
    /// Waits for the best block hash at the start of the run.
    AwaitStartTip,
    /// Waits for the transactions that the node wants re-checked.
    AwaitRelevant,
    /// Waits for the status of the block that confirmed one relevant transaction.
    AwaitRelevantBlock,
    /// Waits for the best block hash again, after the re-check.
    AwaitUnconfirmedRecheck,
    /// Waits until the node was told of the unconfirmed transactions.
    AwaitUnconfirmedNotified,
    /// Waits for the header of the best block and the chain tips, to tell the node of
    /// the new best block.
    AwaitBestBlockTips,
    /// Waits until the node was told of the new best block.
    AwaitBestBlockNotified,
    /// Waits for the status of a watched transaction.
    AwaitTransaction,
    /// Waits for the block that confirms the transaction.
    AwaitBlock,
    /// Waits for the status of the block that the node was last synced to, or of one
    /// of its ancestors, to find the height below which blocks were searched already.
    AwaitSyncedBlockInfo,
    /// Waits for a block to search for spends of the watched outputs.
    AwaitSpendBlock,
    /// Waits for the best block hash again, after the search for confirmations.
    AwaitConfirmedRecheck,
    /// Waits until the node was told of the confirmed transactions.
    AwaitConfirmedNotified,
    /// The run is over.
    Done,
}

/// The outcome of the last action, handed to [`SyncRun::step`].
pub enum SyncEvent {
    /// The hash of the best block.
    Tip(BlockHash),
    /// The transactions that the node wants re-checked, with the blocks that confirm them.
    Relevant(Vec<(Txid, BlockHash)>),
    /// What `bitcoind` knows of a block header: the block's height, its number of
    /// confirmations (negative when the block is not in the best chain), and its parent.
    BlockInfo { height: u64, confirmations: i32, prev: Option<BlockHash> },
    /// The notification was delivered.
    Notified,
    /// The header of the best block, and the chain tips that `bitcoind` knows.
    BestBlock { header: bitcoin::BlockHeader, tips: Vec<ChainTip> },
    /// A transaction: the block that confirms it, if any.
    Transaction { block_hash: Option<BlockHash> },
    /// A block: its header, height and parent, and its transactions in order.
    Block { header: bitcoin::BlockHeader, height: u64, prev: Option<BlockHash>, txs: Vec<BlockTx> },
    /// The call failed, or what it returned could not be decoded.
    RpcFailed,
}

/// What the caller is to do next.
pub enum SyncAction {
    /// Get the hash of the best block; answer with `Tip` or `RpcFailed`.
    FetchTip,
    /// Ask each node component for the transactions to re-check; answer with `Relevant`.
    CollectRelevant,
    /// Get what `bitcoind` knows of this block header; answer with `BlockInfo` or
    /// `RpcFailed`.
    FetchBlockInfo(BlockHash),
    /// Tell the node that these transactions are no longer confirmed; answer with `Notified`.
    NotifyUnconfirmed(Vec<Txid>),
    /// Get the header of this block, then the chain tips; answer with `BestBlock` or
    /// `RpcFailed`.
    FetchBestBlock(BlockHash),
    /// Tell the node of the new best block, with this header, at this height; answer
    /// with `Notified`.
    NotifyBestBlock(bitcoin::BlockHeader, u32),
    /// Get this wallet transaction and decode it; answer with `Transaction` or `RpcFailed`.
    FetchTransaction(Txid),
    /// Get this block and its height and parent; answer with `Block` or `RpcFailed`.
    FetchBlock(BlockHash),
    /// Tell the node of these confirmed transactions, in this order; answer with `Notified`.
    NotifyConfirmed(Vec<ConfirmedTx>),
    /// The run is over, with this result.
    Finish(Result<(), TxSyncError>),
}

/// One sync run.
pub struct SyncRun {
    phase: Phase,
    tip: BlockHash,
    relevant: Vec<(Txid, BlockHash)>,
    next_relevant: usize,
    unconfirmed: Vec<Txid>,
    scan_txids: Vec<Txid>,
    next_tx: usize,
    lookup: Txid,
    floor: Option<u64>,
    walk: BlockHash,
    found: Vec<ConfirmedTx>,
}

impl SyncRun {
    /// Where the run stands.
    pub closed spec fn phase(&self) -> Phase {
        self.phase
    }

    /// The best block hash that the run works towards.
    pub closed spec fn tip(&self) -> BlockHash {
        self.tip
    }

    /// The transactions to re-check, with the blocks that confirmed them.
    pub closed spec fn relevant(&self) -> Seq<(Txid, BlockHash)> {
        self.relevant@
    }

    /// How many of them were re-checked.
    pub closed spec fn next_relevant(&self) -> int {
        self.next_relevant as int
    }

    /// The re-checked transactions whose block is no longer in the best chain.
    pub closed spec fn unconfirmed(&self) -> Seq<Txid> {
        self.unconfirmed@
    }

    /// The watched transactions to look up.
    pub closed spec fn scan_txids(&self) -> Seq<Txid> {
        self.scan_txids@
    }

    /// The position of the transaction in progress among them.
    pub closed spec fn next_scan(&self) -> int {
        self.next_tx as int
    }

    /// The transaction being looked up.
    pub closed spec fn lookup(&self) -> Txid {
        self.lookup
    }

    /// The height at and below which the blocks of the best chain were searched for
    /// spends before; none when only the best block is to be searched.
    pub closed spec fn floor(&self) -> Option<u64> {
        self.floor
    }

    /// The block that the search for spends asked for last.
    pub closed spec fn walk(&self) -> BlockHash {
        self.walk
    }

    /// The confirmed transactions found so far.
    pub closed spec fn found(&self) -> Seq<ConfirmedTx> {
        self.found@
    }

    /// The positions that the run keeps are in range.
    closed spec fn wf_base(&self) -> bool {
        &&& self.next_relevant <= self.relevant@.len()
        &&& self.next_tx <= self.scan_txids@.len()
    }

    /// The positions that the run keeps are in range, and what a phase reads is there.
    pub closed spec fn wf(&self) -> bool {
        &&& self.wf_base()
        &&& self.phase == Phase::AwaitRelevantBlock ==> self.next_relevant < self.relevant@.len()
        &&& (self.phase == Phase::AwaitTransaction || self.phase == Phase::AwaitBlock)
            ==> self.next_tx < self.scan_txids@.len()
        &&& (self.phase == Phase::AwaitSyncedBlockInfo || self.phase == Phase::AwaitSpendBlock
            || self.phase == Phase::AwaitConfirmedRecheck || self.phase == Phase::AwaitConfirmedNotified)
            ==> self.next_tx == self.scan_txids@.len()
        &&& self.phase == Phase::AwaitConfirmedRecheck ==> confirmed_sorted(self.found@)
    }

    /// A run that waits for the best block hash; the action is to fetch it.
    pub fn start() -> (r: (SyncRun, SyncAction))
        ensures
            r.0.wf(),
            r.0.phase() == Phase::AwaitStartTip,
            r.1 == SyncAction::FetchTip,
    {
        let run = SyncRun {
            phase: Phase::AwaitStartTip,
            tip: BlockHash([0u8; 32]),
            relevant: Vec::new(),
            next_relevant: 0,
            unconfirmed: Vec::new(),
            scan_txids: Vec::new(),
            next_tx: 0,
            lookup: Txid([0u8; 32]),
            floor: None,
            walk: BlockHash([0u8; 32]),
            found: Vec::new(),
        };
        (run, SyncAction::FetchTip)
    }
}

/// The state and the queue are as they were.
pub open spec fn untouched(s0: SyncState, s1: SyncState, q0: FilterQueue, q1: FilterQueue) -> bool {
    s1 == s0 && q1 == q0
}

/// The state with a retry owed.
pub open spec fn with_retry_owed(s: SyncState) -> SyncState {
    SyncState { pending_sync: true, ..s }
}

/// The state after a complete run up to `tip`.
pub open spec fn with_synced_to(s: SyncState, tip: BlockHash) -> SyncState {
    SyncState { last_sync_hash: Some(tip), pending_sync: false, ..s }
}

/// The run is over with an error, and the state and the queue are as they were.
pub open spec fn stopped(r1: SyncRun, s0: SyncState, s1: SyncState, q0: FilterQueue, q1: FilterQueue, a: SyncAction) -> bool {
    &&& r1.phase() == Phase::Done
    &&& a == SyncAction::Finish(Err(TxSyncError::Failed))
    &&& untouched(s0, s1, q0, q1)
}

/// The run is over with an error, and a retry is owed at the next run.
pub open spec fn failed_round(r1: SyncRun, s0: SyncState, s1: SyncState, q0: FilterQueue, q1: FilterQueue, a: SyncAction) -> bool {
    &&& r1.phase() == Phase::Done
    &&& a == SyncAction::Finish(Err(TxSyncError::Failed))
    &&& s1 == with_retry_owed(s0)
    &&& q1 == q0
}

/// A block at `height` lies above the height at and below which blocks were searched.
pub open spec fn above_floor(height: u64, floor: Option<u64>) -> bool {
    floor is None || height > floor->Some_0
}

/// The search for spends goes on below a block at `height`.
pub open spec fn walk_goes_on(height: u64, floor: Option<u64>) -> bool {
    floor is Some && height > floor->Some_0 + 1
}

/// The search for confirmations is over: what was found, `found0`, is put in order and
/// the best block hash is asked for again.
pub open spec fn scan_finished(r1: SyncRun, found0: Multiset<ConfirmedTx>, a: SyncAction) -> bool {
    &&& confirmed_sorted(r1.found())
    &&& r1.found().to_multiset() == found0
    &&& r1.phase() == Phase::AwaitConfirmedRecheck
    &&& a == SyncAction::FetchTip
}

/// The search for spends of the watched outputs has begun, with `found0` found so far:
/// if the node is synced to the tip there is nothing new to search; if it was never
/// synced, the best block alone is searched; else the status of the block it was last
/// synced to is asked for first.
pub open spec fn walk_begun(r1: SyncRun, s: SyncState, found0: Seq<ConfirmedTx>, a: SyncAction) -> bool {
    if s.last_sync_hash == Some(r1.tip()) {
        scan_finished(r1, found0.to_multiset(), a)
    } else if s.last_sync_hash is None {
        &&& r1.found() == found0
        &&& r1.floor() == None::<u64>
        &&& r1.phase() == Phase::AwaitSpendBlock
        &&& r1.walk() == r1.tip()
        &&& a == SyncAction::FetchBlock(r1.tip())
    } else {
        &&& r1.found() == found0
        &&& r1.phase() == Phase::AwaitSyncedBlockInfo
        &&& a == SyncAction::FetchBlockInfo(s.last_sync_hash->Some_0)
    }
}

/// The search for confirmations has gone on to watched transaction `idx`, with `found0`
/// found so far; past the last one the search for spends begins.
pub open spec fn scan_advanced(r1: SyncRun, s: SyncState, found0: Seq<ConfirmedTx>, idx: int, a: SyncAction) -> bool {
    &&& r1.next_scan() == idx
    &&& if idx < r1.scan_txids().len() {
        &&& r1.found() == found0
        &&& r1.phase() == Phase::AwaitTransaction
        &&& r1.lookup() == r1.scan_txids()[idx]
        &&& a == SyncAction::FetchTransaction(r1.scan_txids()[idx])
    } else {
        walk_begun(r1, s, found0, a)
    }
}

/// The search for confirmations has begun over what `s` watches.
pub open spec fn scan_begun(r1: SyncRun, s: SyncState, a: SyncAction) -> bool {
    &&& r1.scan_txids() == s.watched_transactions.elems()
    &&& scan_advanced(r1, s, Seq::empty(), 0, a)
}

/// A round has begun at `tip`: the queue was moved into the watch sets, and a retry is
/// owed if anything was queued, until the round is complete; the run is over if nothing
/// is owed, nothing was queued and the node is synced to `tip`; else, if the tip is
/// new, the relevant transactions are re-checked first; else the search for
/// confirmations begins.
pub open spec fn round_begun(
    r1: SyncRun,
    s0: SyncState,
    s1: SyncState,
    q0: FilterQueue,
    q1: FilterQueue,
    tip: BlockHash,
    a: SyncAction,
) -> bool {
    &&& q1.wf()
    &&& q1.is_idle()
    &&& s1.watched_transactions@ == s0.watched_transactions@.union(q0.transactions@)
    &&& s1.watched_outputs@ == s0.watched_outputs@.union(q0.outputs@)
    &&& s1.last_sync_hash == s0.last_sync_hash
    &&& s1.pending_sync == (s0.pending_sync || !q0.is_idle())
    &&& r1.tip() == tip
    &&& if !s0.pending_sync && q0.is_idle() && s0.last_sync_hash == Some(tip) {
        r1.phase() == Phase::Done && a == SyncAction::Finish(Ok(()))
    } else if s0.last_sync_hash != Some(tip) {
        r1.phase() == Phase::AwaitRelevant && a == SyncAction::CollectRelevant
    } else {
        scan_begun(r1, s1, a)
    }
}

/// The search for confirmations keeps its transactions and the run keeps its tip.
pub open spec fn same_scan(r0: SyncRun, r1: SyncRun) -> bool {
    &&& r1.tip() == r0.tip()
    &&& r1.scan_txids() == r0.scan_txids()
}

/// One step of a run: from where run `r0` stands and the outcome `ev` of its last
/// action, to where `r1` stands, with the state, the queue and the next action `a`.
pub open spec fn transition(
    r0: SyncRun,
    r1: SyncRun,
    s0: SyncState,
    s1: SyncState,
    q0: FilterQueue,
    q1: FilterQueue,
    ev: SyncEvent,
    a: SyncAction,
) -> bool {
    match (r0.phase(), ev) {
        (Phase::AwaitStartTip, SyncEvent::Tip(h)) => round_begun(r1, s0, s1, q0, q1, h, a),
        (Phase::AwaitRelevant, SyncEvent::Relevant(v)) => {
            &&& untouched(s0, s1, q0, q1)
            &&& r1.tip() == r0.tip()
            &&& r1.relevant().no_duplicates()
            &&& r1.relevant().to_set() == v@.to_set()
            &&& r1.next_relevant() == 0
            &&& r1.unconfirmed() == Seq::<Txid>::empty()
            &&& (r1.relevant().len() == 0 <==> v@.len() == 0)
            &&& if v@.len() == 0 {
                r1.phase() == Phase::AwaitUnconfirmedRecheck && a == SyncAction::FetchTip
            } else {
                r1.phase() == Phase::AwaitRelevantBlock && a == SyncAction::FetchBlockInfo(r1.relevant()[0].1)
            }
        },
        (Phase::AwaitRelevantBlock, SyncEvent::BlockInfo { confirmations, .. }) => {
            let item = r0.relevant()[r0.next_relevant()];
            &&& untouched(s0, s1, q0, q1)
            &&& r1.tip() == r0.tip()
            &&& r1.relevant() == r0.relevant()
            &&& r1.next_relevant() == r0.next_relevant() + 1
            &&& r1.unconfirmed() == if confirmations >= 0 {
                r0.unconfirmed()
            } else {
                r0.unconfirmed().push(item.0)
            }
            &&& if r1.next_relevant() == r1.relevant().len() {
                r1.phase() == Phase::AwaitUnconfirmedRecheck && a == SyncAction::FetchTip
            } else {
                &&& r1.phase() == Phase::AwaitRelevantBlock
                &&& a == SyncAction::FetchBlockInfo(r1.relevant()[r1.next_relevant()].1)
            }
        },
        (Phase::AwaitUnconfirmedRecheck, SyncEvent::Tip(h)) => {
            if h != r0.tip() {
                round_begun(r1, s0, s1, q0, q1, h, a)
            } else {
                &&& q1 == q0
                &&& s1.wf()
                &&& s1.watched_transactions@ == s0.watched_transactions@.union(r0.unconfirmed().to_set())
                &&& s1.watched_outputs@ == s0.watched_outputs@
                &&& s1.last_sync_hash == s0.last_sync_hash
                &&& s1.pending_sync == s0.pending_sync
                &&& r1.tip() == r0.tip()
                &&& r1.phase() == Phase::AwaitUnconfirmedNotified
                &&& a matches SyncAction::NotifyUnconfirmed(v) && v@ == r0.unconfirmed()
            }
        },
        (Phase::AwaitUnconfirmedNotified, SyncEvent::Notified) => {
            &&& untouched(s0, s1, q0, q1)
            &&& r1.tip() == r0.tip()
            &&& r1.phase() == Phase::AwaitBestBlockTips
            &&& a == SyncAction::FetchBestBlock(r0.tip())
        },
        (Phase::AwaitBestBlockTips, SyncEvent::BestBlock { header, tips }) => match best_block_outcome(
            tips@,
            r0.tip(),
        ) {
            Err(_) => failed_round(r1, s0, s1, q0, q1, a),
            Ok(Some(height)) => {
                &&& untouched(s0, s1, q0, q1)
                &&& r1.tip() == r0.tip()
                &&& r1.phase() == Phase::AwaitBestBlockNotified
                &&& a == SyncAction::NotifyBestBlock(header, height)
            },
            Ok(None) => untouched(s0, s1, q0, q1) && r1.tip() == r0.tip() && scan_begun(r1, s0, a),
        },
        (Phase::AwaitBestBlockNotified, SyncEvent::Notified) => {
            untouched(s0, s1, q0, q1) && r1.tip() == r0.tip() && scan_begun(r1, s0, a)
        },
        (Phase::AwaitTransaction, SyncEvent::Transaction { block_hash }) => match block_hash {
            None => {
                &&& untouched(s0, s1, q0, q1)
                &&& same_scan(r0, r1)
                &&& scan_advanced(r1, s0, r0.found(), r0.next_scan() + 1, a)
            },
            Some(b) => {
                &&& untouched(s0, s1, q0, q1)
                &&& same_scan(r0, r1)
                &&& r1.found() == r0.found()
                &&& r1.next_scan() == r0.next_scan()
                &&& r1.lookup() == r0.lookup()
                &&& r1.phase() == Phase::AwaitBlock
                &&& a == SyncAction::FetchBlock(b)
            },
        },
        (Phase::AwaitBlock, SyncEvent::Block { header, height, txs, .. }) => {
            if !block_txids(txs@).contains(r0.lookup()) {
                round_begun(r1, with_retry_owed(s0), s1, q0, q1, r0.tip(), a)
            } else {
                let p = choose|p: int| first_index_of(block_txids(txs@), r0.lookup(), p);
                &&& untouched(s0, s1, q0, q1)
                &&& same_scan(r0, r1)
                &&& scan_advanced(
                    r1,
                    s0,
                    r0.found().push(confirmed_of_block(txs@[p], header, height as u32, p as usize)),
                    r0.next_scan() + 1,
                    a,
                )
            }
        },
        (Phase::AwaitSyncedBlockInfo, SyncEvent::BlockInfo { height, confirmations, prev }) => {
            &&& untouched(s0, s1, q0, q1)
            &&& same_scan(r0, r1)
            &&& r1.found() == r0.found()
            &&& r1.next_scan() == r0.next_scan()
            &&& if confirmations >= 0 || prev is None {
                &&& r1.floor() == Some(height)
                &&& r1.phase() == Phase::AwaitSpendBlock
                &&& r1.walk() == r0.tip()
                &&& a == SyncAction::FetchBlock(r0.tip())
            } else {
                r1.phase() == Phase::AwaitSyncedBlockInfo && a == SyncAction::FetchBlockInfo(prev->Some_0)
            }
        },
        (Phase::AwaitSpendBlock, SyncEvent::Block { header, height, prev, txs }) => {
            let added = if above_floor(height, r0.floor()) {
                spends_in_block(txs@, header, height as u32, s0.watched_outputs@, 0)
            } else {
                Seq::<ConfirmedTx>::empty()
            };
            let all = r0.found().to_multiset().add(added.to_multiset());
            &&& untouched(s0, s1, q0, q1)
            &&& same_scan(r0, r1)
            &&& r1.next_scan() == r0.next_scan()
            &&& if walk_goes_on(height, r0.floor()) && prev is Some {
                &&& r1.found().to_multiset() == all
                &&& r1.floor() == r0.floor()
                &&& r1.phase() == Phase::AwaitSpendBlock
                &&& r1.walk() == prev->Some_0
                &&& a == SyncAction::FetchBlock(prev->Some_0)
            } else {
                scan_finished(r1, all, a)
            }
        },
        (Phase::AwaitRelevantBlock, SyncEvent::RpcFailed) => failed_round(r1, s0, s1, q0, q1, a),
        (Phase::AwaitUnconfirmedRecheck, SyncEvent::RpcFailed) => failed_round(r1, s0, s1, q0, q1, a),
        (Phase::AwaitBestBlockTips, SyncEvent::RpcFailed) => failed_round(r1, s0, s1, q0, q1, a),
        (Phase::AwaitTransaction, SyncEvent::RpcFailed) => failed_round(r1, s0, s1, q0, q1, a),
        (Phase::AwaitBlock, SyncEvent::RpcFailed) => failed_round(r1, s0, s1, q0, q1, a),
        (Phase::AwaitSyncedBlockInfo, SyncEvent::RpcFailed) => failed_round(r1, s0, s1, q0, q1, a),
        (Phase::AwaitSpendBlock, SyncEvent::RpcFailed) => failed_round(r1, s0, s1, q0, q1, a),
        (Phase::AwaitConfirmedRecheck, SyncEvent::RpcFailed) => failed_round(r1, s0, s1, q0, q1, a),
        (Phase::AwaitConfirmedRecheck, SyncEvent::Tip(h)) => {
            if h != r0.tip() {
                round_begun(r1, s0, s1, q0, q1, h, a)
            } else {
                &&& q1 == q0
                &&& s1.wf()
                &&& s1.watched_transactions@ == s0.watched_transactions@.difference(
                    confirmed_txids(r0.found()),
                )
                &&& s1.watched_outputs@ == s0.watched_outputs@.difference(spent_outpoints(r0.found()))
                &&& s1.last_sync_hash == s0.last_sync_hash
                &&& s1.pending_sync == s0.pending_sync
                &&& r1.tip() == r0.tip()
                &&& r1.phase() == Phase::AwaitConfirmedNotified
                &&& a matches SyncAction::NotifyConfirmed(v) && v@ == r0.found()
            }
        },
        (Phase::AwaitConfirmedNotified, SyncEvent::Notified) => {
            round_begun(r1, with_synced_to(s0, r0.tip()), s1, q0, q1, r0.tip(), a)
        },
        // A failed fetch of the best block hash at the start of the run, before anything
        // was moved, ends the run without owing a retry; so does an outcome that the
        // phase does not wait for.
        _ => stopped(r1, s0, s1, q0, q1, a),
    }
}

proof fn lemma_empty_to_multiset()
    ensures
        Seq::<ConfirmedTx>::empty().to_multiset() == Multiset::<ConfirmedTx>::empty(),
{
    broadcast use vstd::seq_lib::group_to_multiset_ensures;

    let e = Seq::<ConfirmedTx>::empty();
    assert forall|x: ConfirmedTx| e.to_multiset().count(x) == 0 by {
        assert(!e.contains(x));
    }
    assert(e.to_multiset() =~= Multiset::<ConfirmedTx>::empty());
}

proof fn lemma_first_index_unique(s: Seq<Txid>, t: Txid, i: int, k: int)
    requires
        first_index_of(s, t, i),
        first_index_of(s, t, k),
    ensures
        i == k,
{
    if i < k {
        assert(s[i] != t);
    } else if k < i {
        assert(s[k] != t);
    }
}

impl SyncRun {
    /// Puts what was found in order and asks for the best block hash again.
    fn finish_scan(&mut self) -> (a: SyncAction)
        requires
            old(self).wf_base(),
            old(self).next_tx == old(self).scan_txids@.len(),
        ensures
            final(self).wf(),
            same_scan(*old(self), *final(self)),
            final(self).next_scan() == old(self).next_scan(),
            scan_finished(*final(self), old(self).found().to_multiset(), a),
    {
        let mut found: Vec<ConfirmedTx> = Vec::new();
        std::mem::swap(&mut found, &mut self.found);
        self.found = sort_confirmed(found);
        self.phase = Phase::AwaitConfirmedRecheck;
        SyncAction::FetchTip
    }

    /// Begins the search for spends of the watched outputs.
    fn begin_walk(&mut self, state: &SyncState) -> (a: SyncAction)
        requires
            old(self).wf_base(),
            old(self).next_tx == old(self).scan_txids@.len(),
        ensures
            final(self).wf(),
            same_scan(*old(self), *final(self)),
            final(self).next_scan() == old(self).next_scan(),
            walk_begun(*final(self), *state, old(self).found(), a),
    {
        match state.last_sync_hash {
            Some(last) => {
                if last.same(&self.tip) {
                    self.finish_scan()
                } else {
                    self.phase = Phase::AwaitSyncedBlockInfo;
                    SyncAction::FetchBlockInfo(last)
                }
            },
            None => {
                self.floor = None;
                self.walk = self.tip;
                self.phase = Phase::AwaitSpendBlock;
                SyncAction::FetchBlock(self.tip)
            },
        }
    }

    /// Moves on to watched transaction `k`; past the last one the search for spends
    /// begins.
    fn scan_from(&mut self, state: &SyncState, k: usize) -> (a: SyncAction)
        requires
            k <= old(self).scan_txids@.len(),
            old(self).next_relevant <= old(self).relevant@.len(),
        ensures
            final(self).wf(),
            same_scan(*old(self), *final(self)),
            scan_advanced(*final(self), *state, old(self).found(), k as int, a),
    {
        self.next_tx = k;
        if k < self.scan_txids.len() {
            let t = self.scan_txids[k];
            self.lookup = t;
            self.phase = Phase::AwaitTransaction;
            SyncAction::FetchTransaction(t)
        } else {
            self.begin_walk(state)
        }
    }

    /// Moves on to the watched transaction after the one in progress.
    fn advance_scan(&mut self, state: &SyncState) -> (a: SyncAction)
        requires
            old(self).wf_base(),
            old(self).next_tx < old(self).scan_txids@.len(),
        ensures
            final(self).wf(),
            same_scan(*old(self), *final(self)),
            scan_advanced(*final(self), *state, old(self).found(), old(self).next_scan() + 1, a),
    {
        assert(self.next_tx < self.scan_txids.len());
        let k = self.next_tx + 1;
        self.scan_from(state, k)
    }

    /// Begins the search for confirmations over what `state` watches.
    fn begin_scan(&mut self, state: &SyncState) -> (a: SyncAction)
        requires
            old(self).next_relevant <= old(self).relevant@.len(),
        ensures
            final(self).wf(),
            final(self).tip() == old(self).tip(),
            scan_begun(*final(self), *state, a),
    {
        self.scan_txids = state.watched_transactions.to_vec();
        self.found = Vec::new();
        self.scan_from(state, 0)
    }

    /// Begins a round at `tip`.
    fn begin_round(&mut self, state: &mut SyncState, queue: &mut FilterQueue, tip: BlockHash) -> (a: SyncAction)
        requires
            old(self).wf_base(),
            old(state).wf(),
            old(queue).wf(),
        ensures
            final(self).wf(),
            final(state).wf(),
            round_begun(*final(self), *old(state), *final(state), *old(queue), *final(queue), tip, a),
    {
        let owed = state.pending_sync;
        let pending_registrations = queue.process_queues(state);
        if pending_registrations {
            state.pending_sync = true;
        }
        self.tip = tip;
        let tip_is_new = match state.last_sync_hash {
            Some(last_sync_hash) => !tip.same(&last_sync_hash),
            None => true,
        };
        if !owed && !pending_registrations && !tip_is_new {
            self.phase = Phase::Done;
            SyncAction::Finish(Ok(()))
        } else if tip_is_new {
            self.phase = Phase::AwaitRelevant;
            SyncAction::CollectRelevant
        } else {
            self.begin_scan(state)
        }
    }

    /// Owes a retry and begins the round again at the same tip.
    fn restart(&mut self, state: &mut SyncState, queue: &mut FilterQueue) -> (a: SyncAction)
        requires
            old(self).wf_base(),
            old(state).wf(),
            old(queue).wf(),
        ensures
            final(self).wf(),
            final(state).wf(),
            round_begun(
                *final(self),
                with_retry_owed(*old(state)),
                *final(state),
                *old(queue),
                *final(queue),
                old(self).tip(),
                a,
            ),
    {
        state.pending_sync = true;
        assert(*state == with_retry_owed(*old(state)));
        let tip = self.tip;
        self.begin_round(state, queue, tip)
    }

    /// Ends the run with an error and owes a retry.
    fn fail_round(&mut self, state: &mut SyncState) -> (a: SyncAction)
        requires
            old(self).wf_base(),
            old(state).wf(),
        ensures
            final(self).wf(),
            final(state).wf(),
            final(self).phase() == Phase::Done,
            a == SyncAction::Finish(Err(TxSyncError::Failed)),
            *final(state) == with_retry_owed(*old(state)),
    {
        state.pending_sync = true;
        self.phase = Phase::Done;
        SyncAction::Finish(Err(TxSyncError::Failed))
    }

    /// Ends the run with an error.
    fn stop(&mut self) -> (a: SyncAction)
        requires
            old(self).wf_base(),
        ensures
            final(self).wf(),
            final(self).phase() == Phase::Done,
            a == SyncAction::Finish(Err(TxSyncError::Failed)),
    {
        self.phase = Phase::Done;
        SyncAction::Finish(Err(TxSyncError::Failed))
    }
}

impl SyncRun {
    fn on_start_tip(&mut self, state: &mut SyncState, queue: &mut FilterQueue, ev: SyncEvent) -> (a: SyncAction)
        requires
            old(self).wf(),
            old(self).phase() == Phase::AwaitStartTip,
            old(state).wf(),
            old(queue).wf(),
        ensures
            final(self).wf(),
            final(state).wf(),
            final(queue).wf(),
            transition(*old(self), *final(self), *old(state), *final(state), *old(queue), *final(queue), ev, a),
    {
        match ev {
            SyncEvent::Tip(h) => self.begin_round(state, queue, h),
            _ => self.stop(),
        }
    }

    fn on_relevant(&mut self, state: &mut SyncState, queue: &mut FilterQueue, ev: SyncEvent) -> (a: SyncAction)
        requires
            old(self).wf(),
            old(self).phase() == Phase::AwaitRelevant,
            old(state).wf(),
            old(queue).wf(),
        ensures
            final(self).wf(),
            final(state).wf(),
            final(queue).wf(),
            transition(*old(self), *final(self), *old(state), *final(state), *old(queue), *final(queue), ev, a),
    {
        match ev {
            SyncEvent::Relevant(v) => {
                self.relevant = dedup_relevant(&v);
                self.next_relevant = 0;
                self.unconfirmed = Vec::new();
                if self.relevant.len() == 0 {
                    self.phase = Phase::AwaitUnconfirmedRecheck;
                    SyncAction::FetchTip
                } else {
                    self.phase = Phase::AwaitRelevantBlock;
                    SyncAction::FetchBlockInfo(self.relevant[0].1)
                }
            },
            _ => self.stop(),
        }
    }

    fn on_relevant_block(&mut self, state: &mut SyncState, queue: &mut FilterQueue, ev: SyncEvent) -> (a: SyncAction)
        requires
            old(self).wf(),
            old(self).phase() == Phase::AwaitRelevantBlock,
            old(state).wf(),
            old(queue).wf(),
        ensures
            final(self).wf(),
            final(state).wf(),
            final(queue).wf(),
            transition(*old(self), *final(self), *old(state), *final(state), *old(queue), *final(queue), ev, a),
    {
        match ev {
            SyncEvent::BlockInfo { confirmations, .. } => {
                let n = self.relevant.len();
                let item = self.relevant[self.next_relevant];
                if confirmations < 0 {
                    self.unconfirmed.push(item.0);
                }
                self.next_relevant = self.next_relevant + 1;
                if self.next_relevant == n {
                    self.phase = Phase::AwaitUnconfirmedRecheck;
                    SyncAction::FetchTip
                } else {
                    self.phase = Phase::AwaitRelevantBlock;
                    SyncAction::FetchBlockInfo(self.relevant[self.next_relevant].1)
                }
            },
            SyncEvent::RpcFailed => self.fail_round(state),
            _ => self.stop(),
        }
    }

    fn on_unconfirmed_recheck(&mut self, state: &mut SyncState, queue: &mut FilterQueue, ev: SyncEvent) -> (a: SyncAction)
        requires
            old(self).wf(),
            old(self).phase() == Phase::AwaitUnconfirmedRecheck,
            old(state).wf(),
            old(queue).wf(),
        ensures
            final(self).wf(),
            final(state).wf(),
            final(queue).wf(),
            transition(*old(self), *final(self), *old(state), *final(state), *old(queue), *final(queue), ev, a),
    {
        match ev {
            SyncEvent::Tip(h) => {
                if !h.same(&self.tip) {
                    self.begin_round(state, queue, h)
                } else {
                    watch_unconfirmed(state, &self.unconfirmed);
                    let mut v: Vec<Txid> = Vec::new();
                    std::mem::swap(&mut v, &mut self.unconfirmed);
                    self.phase = Phase::AwaitUnconfirmedNotified;
                    SyncAction::NotifyUnconfirmed(v)
                }
            },
            SyncEvent::RpcFailed => self.fail_round(state),
            _ => self.stop(),
        }
    }

    fn on_unconfirmed_notified(&mut self, state: &mut SyncState, queue: &mut FilterQueue, ev: SyncEvent) -> (a: SyncAction)
        requires
            old(self).wf(),
            old(self).phase() == Phase::AwaitUnconfirmedNotified,
            old(state).wf(),
            old(queue).wf(),
        ensures
            final(self).wf(),
            final(state).wf(),
            final(queue).wf(),
            transition(*old(self), *final(self), *old(state), *final(state), *old(queue), *final(queue), ev, a),
    {
        match ev {
            SyncEvent::Notified => {
                self.phase = Phase::AwaitBestBlockTips;
                SyncAction::FetchBestBlock(self.tip)
            },
            _ => self.stop(),
        }
    }

    fn on_best_block_tips(&mut self, state: &mut SyncState, queue: &mut FilterQueue, ev: SyncEvent) -> (a: SyncAction)
        requires
            old(self).wf(),
            old(self).phase() == Phase::AwaitBestBlockTips,
            old(state).wf(),
            old(queue).wf(),
        ensures
            final(self).wf(),
            final(state).wf(),
            final(queue).wf(),
            transition(*old(self), *final(self), *old(state), *final(state), *old(queue), *final(queue), ev, a),
    {
        match ev {
            SyncEvent::BestBlock { header, tips } => match best_block_update(&tips, &self.tip) {
                Err(_) => self.fail_round(state),
                Ok(Some(height)) => {
                    self.phase = Phase::AwaitBestBlockNotified;
                    SyncAction::NotifyBestBlock(header, height)
                },
                Ok(None) => self.begin_scan(state),
            },
            SyncEvent::RpcFailed => self.fail_round(state),
            _ => self.stop(),
        }
    }

    fn on_best_block_notified(&mut self, state: &mut SyncState, queue: &mut FilterQueue, ev: SyncEvent) -> (a: SyncAction)
        requires
            old(self).wf(),
            old(self).phase() == Phase::AwaitBestBlockNotified,
            old(state).wf(),
            old(queue).wf(),
        ensures
            final(self).wf(),
            final(state).wf(),
            final(queue).wf(),
            transition(*old(self), *final(self), *old(state), *final(state), *old(queue), *final(queue), ev, a),
    {
        match ev {
            SyncEvent::Notified => self.begin_scan(state),
            _ => self.stop(),
        }
    }

    fn on_transaction(&mut self, state: &mut SyncState, queue: &mut FilterQueue, ev: SyncEvent) -> (a: SyncAction)
        requires
            old(self).wf(),
            old(self).phase() == Phase::AwaitTransaction,
            old(state).wf(),
            old(queue).wf(),
        ensures
            final(self).wf(),
            final(state).wf(),
            final(queue).wf(),
            transition(*old(self), *final(self), *old(state), *final(state), *old(queue), *final(queue), ev, a),
    {
        match ev {
            SyncEvent::Transaction { block_hash } => match block_hash {
                None => self.advance_scan(state),
                Some(b) => {
                    self.phase = Phase::AwaitBlock;
                    SyncAction::FetchBlock(b)
                },
            },
            SyncEvent::RpcFailed => self.fail_round(state),
            _ => self.stop(),
        }
    }

    fn on_block(&mut self, state: &mut SyncState, queue: &mut FilterQueue, ev: SyncEvent) -> (a: SyncAction)
        requires
            old(self).wf(),
            old(self).phase() == Phase::AwaitBlock,
            old(state).wf(),
            old(queue).wf(),
        ensures
            final(self).wf(),
            final(state).wf(),
            final(queue).wf(),
            transition(*old(self), *final(self), *old(state), *final(state), *old(queue), *final(queue), ev, a),
    {
        match ev {
            SyncEvent::Block { header, height, txs, .. } => match position_of_tx(&txs, &self.lookup) {
                None => self.restart(state, queue),
                Some(pos) => {
                    proof {
                        let c = choose|c: int| first_index_of(block_txids(txs@), self.lookup, c);
                        lemma_first_index_unique(block_txids(txs@), self.lookup, pos as int, c);
                    }
                    let mut txs = txs;
                    let b = txs.remove(pos);
                    let ctx = ConfirmedTx {
                        tx: b.tx,
                        block_header: header,
                        block_height: height as u32,
                        pos,
                        txid: b.txid,
                        spent: b.spent,
                    };
                    self.found.push(ctx);
                    self.advance_scan(state)
                },
            },
            SyncEvent::RpcFailed => self.fail_round(state),
            _ => self.stop(),
        }
    }

    fn on_synced_block_info(&mut self, state: &mut SyncState, queue: &mut FilterQueue, ev: SyncEvent) -> (a: SyncAction)
        requires
            old(self).wf(),
            old(self).phase() == Phase::AwaitSyncedBlockInfo,
            old(state).wf(),
            old(queue).wf(),
        ensures
            final(self).wf(),
            final(state).wf(),
            final(queue).wf(),
            transition(*old(self), *final(self), *old(state), *final(state), *old(queue), *final(queue), ev, a),
    {
        match ev {
            SyncEvent::BlockInfo { height, confirmations, prev } => match prev {
                Some(p) => {
                    if confirmations >= 0 {
                        self.floor = Some(height);
                        self.walk = self.tip;
                        self.phase = Phase::AwaitSpendBlock;
                        SyncAction::FetchBlock(self.tip)
                    } else {
                        SyncAction::FetchBlockInfo(p)
                    }
                },
                None => {
                    self.floor = Some(height);
                    self.walk = self.tip;
                    self.phase = Phase::AwaitSpendBlock;
                    SyncAction::FetchBlock(self.tip)
                },
            },
            SyncEvent::RpcFailed => self.fail_round(state),
            _ => self.stop(),
        }
    }

    fn on_spend_block(&mut self, state: &mut SyncState, queue: &mut FilterQueue, ev: SyncEvent) -> (a: SyncAction)
        requires
            old(self).wf(),
            old(self).phase() == Phase::AwaitSpendBlock,
            old(state).wf(),
            old(queue).wf(),
        ensures
            final(self).wf(),
            final(state).wf(),
            final(queue).wf(),
            transition(*old(self), *final(self), *old(state), *final(state), *old(queue), *final(queue), ev, a),
    {
        match ev {
            SyncEvent::Block { header, height, prev, txs } => {
                let ghost found0 = self.found@;
                let above = match self.floor {
                    Some(f) => height > f,
                    None => true,
                };
                if above {
                    collect_spends(txs, header, height as u32, &state.watched_outputs, &mut self.found);
                } else {
                    proof {
                        lemma_empty_to_multiset();
                        assert(self.found@.to_multiset() =~= found0.to_multiset().add(
                            Seq::<ConfirmedTx>::empty().to_multiset(),
                        ));
                    }
                }
                let goes_on = match self.floor {
                    Some(f) => height > f && height - f > 1,
                    None => false,
                };
                match prev {
                    Some(p) => {
                        if goes_on {
                            self.walk = p;
                            SyncAction::FetchBlock(p)
                        } else {
                            self.finish_scan()
                        }
                    },
                    None => self.finish_scan(),
                }
            },
            SyncEvent::RpcFailed => self.fail_round(state),
            _ => self.stop(),
        }
    }

    fn on_confirmed_recheck(&mut self, state: &mut SyncState, queue: &mut FilterQueue, ev: SyncEvent) -> (a: SyncAction)
        requires
            old(self).wf(),
            old(self).phase() == Phase::AwaitConfirmedRecheck,
            old(state).wf(),
            old(queue).wf(),
        ensures
            final(self).wf(),
            final(state).wf(),
            final(queue).wf(),
            transition(*old(self), *final(self), *old(state), *final(state), *old(queue), *final(queue), ev, a),
    {
        match ev {
            SyncEvent::Tip(h) => {
                if !h.same(&self.tip) {
                    self.begin_round(state, queue, h)
                } else {
                    unwatch_confirmed(state, &self.found);
                    let mut v: Vec<ConfirmedTx> = Vec::new();
                    std::mem::swap(&mut v, &mut self.found);
                    self.phase = Phase::AwaitConfirmedNotified;
                    SyncAction::NotifyConfirmed(v)
                }
            },
            SyncEvent::RpcFailed => self.fail_round(state),
            _ => self.stop(),
        }
    }

    fn on_confirmed_notified(&mut self, state: &mut SyncState, queue: &mut FilterQueue, ev: SyncEvent) -> (a: SyncAction)
        requires
            old(self).wf(),
            old(self).phase() == Phase::AwaitConfirmedNotified,
            old(state).wf(),
            old(queue).wf(),
        ensures
            final(self).wf(),
            final(state).wf(),
            final(queue).wf(),
            transition(*old(self), *final(self), *old(state), *final(state), *old(queue), *final(queue), ev, a),
    {
        match ev {
            SyncEvent::Notified => {
                state.last_sync_hash = Some(self.tip);
                state.pending_sync = false;
                assert(*state == with_synced_to(*old(state), self.tip));
                let tip = self.tip;
                self.begin_round(state, queue, tip)
            },
            _ => self.stop(),
        }
    }

}

impl SyncRun {
    /// Takes the outcome of the last action and tells what to do next.
    ///
    /// An outcome of another kind than the one the run waits for ends the run with an
    /// error, as does one handed to a run that is over.
    pub fn step(&mut self, state: &mut SyncState, queue: &mut FilterQueue, ev: SyncEvent) -> (a: SyncAction)
        requires
            old(self).wf(),
            old(state).wf(),
            old(queue).wf(),
        ensures
            final(self).wf(),
            final(state).wf(),
            final(queue).wf(),
            transition(*old(self), *final(self), *old(state), *final(state), *old(queue), *final(queue), ev, a),
    {
        match self.phase {
            Phase::AwaitStartTip => self.on_start_tip(state, queue, ev),
            Phase::AwaitRelevant => self.on_relevant(state, queue, ev),
            Phase::AwaitRelevantBlock => self.on_relevant_block(state, queue, ev),
            Phase::AwaitUnconfirmedRecheck => self.on_unconfirmed_recheck(state, queue, ev),
            Phase::AwaitUnconfirmedNotified => self.on_unconfirmed_notified(state, queue, ev),
            Phase::AwaitBestBlockTips => self.on_best_block_tips(state, queue, ev),
            Phase::AwaitBestBlockNotified => self.on_best_block_notified(state, queue, ev),
            Phase::AwaitTransaction => self.on_transaction(state, queue, ev),
            Phase::AwaitBlock => self.on_block(state, queue, ev),
            Phase::AwaitSyncedBlockInfo => self.on_synced_block_info(state, queue, ev),
            Phase::AwaitSpendBlock => self.on_spend_block(state, queue, ev),
            Phase::AwaitConfirmedRecheck => self.on_confirmed_recheck(state, queue, ev),
            Phase::AwaitConfirmedNotified => self.on_confirmed_notified(state, queue, ev),
            Phase::Done => self.stop(),
        }
    }

    /// Whether the run is over.
    pub fn is_done(&self) -> (b: bool)
        ensures
            b == (self.phase() == Phase::Done),
    {
        self.phase == Phase::Done
    }
}

/// A run ends without error only when no retry is owed, nothing was queued, and the
/// node is synced to the tip that the run checked last.
pub proof fn law_finish_ok_only_when_synced(
    r0: SyncRun,
    r1: SyncRun,
    s0: SyncState,
    s1: SyncState,
    q0: FilterQueue,
    q1: FilterQueue,
    ev: SyncEvent,
    a: SyncAction,
)
    requires
        transition(r0, r1, s0, s1, q0, q1, ev, a),
        a == SyncAction::Finish(Ok(())),
    ensures
        r1.phase() == Phase::Done,
        !s1.pending_sync,
        s1.last_sync_hash == Some(r1.tip()),
        q0.is_idle(),
        q1.is_idle(),
{
}

/// When a call fails after the round began (a fetch of chain data, or a re-check of the
/// best block hash), the run ends with an error, a retry is owed, and nothing else of
/// the state or of the queue changes.
pub proof fn law_failure_owes_retry(
    r0: SyncRun,
    r1: SyncRun,
    s0: SyncState,
    s1: SyncState,
    q0: FilterQueue,
    q1: FilterQueue,
    a: SyncAction,
)
    requires
        transition(r0, r1, s0, s1, q0, q1, SyncEvent::RpcFailed, a),
        r0.phase() == Phase::AwaitRelevantBlock || r0.phase() == Phase::AwaitBestBlockTips
            || r0.phase() == Phase::AwaitUnconfirmedRecheck || r0.phase() == Phase::AwaitConfirmedRecheck
            || r0.phase() == Phase::AwaitTransaction || r0.phase() == Phase::AwaitBlock
            || r0.phase() == Phase::AwaitSyncedBlockInfo || r0.phase() == Phase::AwaitSpendBlock,
    ensures
        r1.phase() == Phase::Done,
        a == SyncAction::Finish(Err(TxSyncError::Failed)),
        s1 == with_retry_owed(s0),
        q1 == q0,
{
}

/// When the best block hash cannot be fetched at the start of a run, before the queue
/// was moved into the watch sets, the run ends with an error and leaves the state and
/// the queue as they were.
pub proof fn law_tip_failure_changes_nothing(
    r0: SyncRun,
    r1: SyncRun,
    s0: SyncState,
    s1: SyncState,
    q0: FilterQueue,
    q1: FilterQueue,
    a: SyncAction,
)
    requires
        transition(r0, r1, s0, s1, q0, q1, SyncEvent::RpcFailed, a),
        r0.phase() == Phase::AwaitStartTip,
    ensures
        r1.phase() == Phase::Done,
        a == SyncAction::Finish(Err(TxSyncError::Failed)),
        s1 == s0,
        q1 == q0,
{
}

/// Confirmed transactions are handed to the node in order of block height, then of
/// position in the block; they are no longer watched, nor are the outputs they spend.
pub proof fn law_confirmed_in_order_and_unwatched(
    r0: SyncRun,
    r1: SyncRun,
    s0: SyncState,
    s1: SyncState,
    q0: FilterQueue,
    q1: FilterQueue,
    ev: SyncEvent,
    a: SyncAction,
)
    requires
        r0.wf(),
        transition(r0, r1, s0, s1, q0, q1, ev, a),
        a is NotifyConfirmed,
    ensures
        confirmed_sorted(a->NotifyConfirmed_0@),
        forall|i: int| 0 <= i < a->NotifyConfirmed_0@.len()
            ==> !s1.watched_transactions@.contains(#[trigger] a->NotifyConfirmed_0@[i].txid),
        forall|i: int, j: int| 0 <= i < a->NotifyConfirmed_0@.len()
            && 0 <= j < a->NotifyConfirmed_0@[i].spent@.len()
            ==> !s1.watched_outputs@.contains(#[trigger] a->NotifyConfirmed_0@[i].spent@[j]),
        s1.last_sync_hash == s0.last_sync_hash,
{
    let v = a->NotifyConfirmed_0@;
    assert(r0.phase() == Phase::AwaitConfirmedRecheck);
    assert forall|i: int| 0 <= i < v.len() implies !s1.watched_transactions@.contains(#[trigger] v[i].txid) by {
        assert(confirmed_txids(v).contains(v[i].txid));
    }
    assert forall|i: int, j: int| 0 <= i < v.len() && 0 <= j < v[i].spent@.len()
        implies !s1.watched_outputs@.contains(#[trigger] v[i].spent@[j]) by {
        assert(spent_outpoints(v).contains(v[i].spent@[j]));
    }
}

/// Transactions that a reorganisation unconfirmed are watched again.
pub proof fn law_unconfirmed_watched_again(
    r0: SyncRun,
    r1: SyncRun,
    s0: SyncState,
    s1: SyncState,
    q0: FilterQueue,
    q1: FilterQueue,
    ev: SyncEvent,
    a: SyncAction,
)
    requires
        transition(r0, r1, s0, s1, q0, q1, ev, a),
        a is NotifyUnconfirmed,
    ensures
        forall|i: int| 0 <= i < a->NotifyUnconfirmed_0@.len()
            ==> s1.watched_transactions@.contains(#[trigger] a->NotifyUnconfirmed_0@[i]),
        s0.watched_transactions@.subset_of(s1.watched_transactions@),
{
    let v = a->NotifyUnconfirmed_0@;
    assert forall|i: int| 0 <= i < v.len() implies s1.watched_transactions@.contains(#[trigger] v[i]) by {
        assert(v.to_set().contains(v[i]));
    }
}

/// When the best block hash changed while the run checked the chain, the round begins
/// again at the new tip: the node is told nothing of what was found, and the state is
/// not marked synced.
pub proof fn law_new_tip_restarts_round(
    r0: SyncRun,
    r1: SyncRun,
    s0: SyncState,
    s1: SyncState,
    q0: FilterQueue,
    q1: FilterQueue,
    h: BlockHash,
    a: SyncAction,
)
    requires
        transition(r0, r1, s0, s1, q0, q1, SyncEvent::Tip(h), a),
        r0.phase() == Phase::AwaitUnconfirmedRecheck || r0.phase() == Phase::AwaitConfirmedRecheck,
        h != r0.tip(),
    ensures
        r1.tip() == h,
        !(a is NotifyUnconfirmed),
        !(a is NotifyConfirmed),
        s1.last_sync_hash == s0.last_sync_hash,
        s0.pending_sync ==> s1.pending_sync,
{
}

/// The outcome contradicts the lookup in progress: the transaction is missing from the
/// block that confirms it.
pub open spec fn inconsistent_outcome(r0: SyncRun, ev: SyncEvent) -> bool {
    match ev {
        SyncEvent::Block { txs, .. } => r0.phase() == Phase::AwaitBlock && !block_txids(txs@).contains(
            r0.lookup(),
        ),
        _ => false,
    }
}

/// An inconsistency between what the chain data says (a transaction missing from the
/// block that confirms it) owes a retry and begins the round again at the same tip.
pub proof fn law_inconsistency_restarts_round(
    r0: SyncRun,
    r1: SyncRun,
    s0: SyncState,
    s1: SyncState,
    q0: FilterQueue,
    q1: FilterQueue,
    ev: SyncEvent,
    a: SyncAction,
)
    requires
        transition(r0, r1, s0, s1, q0, q1, ev, a),
        inconsistent_outcome(r0, ev),
    ensures
        s1.pending_sync,
        r1.tip() == r0.tip(),
        a != SyncAction::Finish(Ok(())),
        !(a is NotifyConfirmed),
{
}

/// Only a completed round marks the state synced, and then to the tip it checked; it
/// clears the retry owed, unless the next round moves new registrations at once.
pub proof fn law_synced_only_on_completion(
    r0: SyncRun,
    r1: SyncRun,
    s0: SyncState,
    s1: SyncState,
    q0: FilterQueue,
    q1: FilterQueue,
    ev: SyncEvent,
    a: SyncAction,
)
    requires
        transition(r0, r1, s0, s1, q0, q1, ev, a),
        s1.last_sync_hash != s0.last_sync_hash || (s0.pending_sync && !s1.pending_sync),
    ensures
        r0.phase() == Phase::AwaitConfirmedNotified,
        ev is Notified,
        s1.last_sync_hash == Some(r0.tip()),
        s1.pending_sync == !q0.is_idle(),
{
}

/// A step that moves registrations out of the queue owes a retry until a round is
/// complete, so that an interrupted round does not lose them.
pub proof fn law_moved_registrations_owe_retry(
    r0: SyncRun,
    r1: SyncRun,
    s0: SyncState,
    s1: SyncState,
    q0: FilterQueue,
    q1: FilterQueue,
    ev: SyncEvent,
    a: SyncAction,
)
    requires
        transition(r0, r1, s0, s1, q0, q1, ev, a),
        !q0.is_idle(),
        q1.is_idle(),
    ensures
        s1.pending_sync,
        a != SyncAction::Finish(Ok(())),
{
}

/// A run as it went: `rs`, `ss` and `qs` are the run, the state and the queue before
/// each step and after the last, `evs` the outcomes handed to the steps, and `acts`
/// the actions: `acts[0]` is the action the run began with and `acts[i + 1]` the one
/// step `i` returned. Nothing else touched the state or the queue between the steps.
pub open spec fn is_run(
    rs: Seq<SyncRun>,
    ss: Seq<SyncState>,
    qs: Seq<FilterQueue>,
    evs: Seq<SyncEvent>,
    acts: Seq<SyncAction>,
) -> bool {
    &&& rs.len() == evs.len() + 1
    &&& ss.len() == rs.len()
    &&& qs.len() == rs.len()
    &&& acts.len() == rs.len()
    &&& forall|i: int| 0 <= i < rs.len() ==> #[trigger] rs[i].wf()
    &&& forall|i: int| 0 <= i < ss.len() ==> #[trigger] ss[i].wf()
    &&& forall|i: int|
        0 <= i < evs.len() ==> #[trigger] transition(
            rs[i],
            rs[i + 1],
            ss[i],
            ss[i + 1],
            qs[i],
            qs[i + 1],
            evs[i],
            acts[i + 1],
        )
}

/// The search for confirmations in progress has not yet reached transaction `t`.
pub open spec fn scan_ahead(r: SyncRun, t: Txid) -> bool {
    exists|j: int| 0 <= j < r.scan_txids().len() && r.scan_txids()[j] == t && j > r.next_scan()
}

/// Transaction `t` has not been looked up yet, and the run cannot end without error
/// before it is: it is queued before the first round, watched with a retry owed
/// afterwards, and ahead of the search for confirmations once that has begun; a run
/// that is over ended with an error.
pub open spec fn lookup_owed(r: SyncRun, s: SyncState, q: FilterQueue, a: SyncAction, t: Txid) -> bool {
    match r.phase() {
        Phase::AwaitStartTip => q.transactions@.contains(t),
        Phase::Done => a == SyncAction::Finish(Err(TxSyncError::Failed)),
        Phase::AwaitTransaction | Phase::AwaitBlock | Phase::AwaitSyncedBlockInfo | Phase::AwaitSpendBlock
        | Phase::AwaitConfirmedRecheck | Phase::AwaitConfirmedNotified => {
            s.watched_transactions@.contains(t) && s.pending_sync && scan_ahead(r, t)
        },
        _ => s.watched_transactions@.contains(t) && s.pending_sync,
    }
}

/// The run has begun to look up `t` as a watched transaction, with a retry owed.
pub open spec fn starts_lookup_of(r: SyncRun, s: SyncState, t: Txid) -> bool {
    &&& s.watched_transactions@.contains(t)
    &&& s.pending_sync
    &&& r.phase() == Phase::AwaitTransaction
    &&& r.lookup() == t
}

proof fn lemma_scan_begun_owes(r1: SyncRun, s1: SyncState, a: SyncAction, t: Txid)
    requires
        scan_begun(r1, s1, a),
        s1.watched_transactions@.contains(t),
    ensures
        a == SyncAction::FetchTransaction(t) || scan_ahead(r1, t),
        a is FetchTransaction ==> r1.phase() == Phase::AwaitTransaction && r1.lookup()
            == a->FetchTransaction_0,
{
    s1.watched_transactions.lemma_view();
    let j = choose|j: int| 0 <= j < s1.watched_transactions.elems().len()
        && s1.watched_transactions.elems()[j] == t;
    if j > 0 {
        assert(scan_ahead(r1, t));
    }
}

proof fn lemma_scan_advanced_owes(
    r0: SyncRun,
    r1: SyncRun,
    s: SyncState,
    found0: Seq<ConfirmedTx>,
    a: SyncAction,
    t: Txid,
)
    requires
        same_scan(r0, r1),
        scan_ahead(r0, t),
        scan_advanced(r1, s, found0, r0.next_scan() + 1, a),
    ensures
        a == SyncAction::FetchTransaction(t) || scan_ahead(r1, t),
        a is FetchTransaction ==> r1.phase() == Phase::AwaitTransaction && r1.lookup()
            == a->FetchTransaction_0,
{
    let j = choose|j: int| 0 <= j < r0.scan_txids().len() && r0.scan_txids()[j] == t && j > r0.next_scan();
    if j > r1.next_scan() {
        assert(scan_ahead(r1, t));
    }
}

proof fn lemma_round_begun_owes(
    r1: SyncRun,
    s0: SyncState,
    s1: SyncState,
    q0: FilterQueue,
    q1: FilterQueue,
    tip: BlockHash,
    a: SyncAction,
    t: Txid,
)
    requires
        s1.wf(),
        round_begun(r1, s0, s1, q0, q1, tip, a),
        (s0.watched_transactions@.contains(t) && s0.pending_sync) || q0.transactions@.contains(t),
    ensures
        a == SyncAction::FetchTransaction(t) || lookup_owed(r1, s1, q1, a, t),
        a == SyncAction::FetchTransaction(t) ==> starts_lookup_of(r1, s1, t),
{
    assert(s1.watched_transactions@.contains(t));
    if q0.transactions@.contains(t) {
        assert(!q0.is_idle());
    }
    assert(s1.pending_sync);
    if s0.last_sync_hash != Some(tip) {
    } else {
        lemma_scan_begun_owes(r1, s1, a, t);
    }
}

/// One step keeps the lookup of `t` owed, unless it asks for that lookup.
proof fn lemma_lookup_owed_step(
    r0: SyncRun,
    r1: SyncRun,
    s0: SyncState,
    s1: SyncState,
    q0: FilterQueue,
    q1: FilterQueue,
    ev: SyncEvent,
    a0: SyncAction,
    a: SyncAction,
    t: Txid,
)
    requires
        r0.wf(),
        r1.wf(),
        s0.wf(),
        s1.wf(),
        transition(r0, r1, s0, s1, q0, q1, ev, a),
        lookup_owed(r0, s0, q0, a0, t),
    ensures
        a == SyncAction::FetchTransaction(t) || lookup_owed(r1, s1, q1, a, t),
        a == SyncAction::FetchTransaction(t) ==> starts_lookup_of(r1, s1, t),
{
    match (r0.phase(), ev) {
        (Phase::AwaitStartTip, SyncEvent::Tip(h)) => {
            lemma_round_begun_owes(r1, s0, s1, q0, q1, h, a, t);
        },
        (Phase::AwaitUnconfirmedRecheck, SyncEvent::Tip(h)) => {
            if h != r0.tip() {
                lemma_round_begun_owes(r1, s0, s1, q0, q1, h, a, t);
            }
        },
        (Phase::AwaitConfirmedRecheck, _) => {
            assert(!scan_ahead(r0, t));
        },
        (Phase::AwaitConfirmedNotified, _) => {
            assert(!scan_ahead(r0, t));
        },
        (Phase::AwaitSyncedBlockInfo, _) => {
            assert(!scan_ahead(r0, t));
        },
        (Phase::AwaitSpendBlock, _) => {
            assert(!scan_ahead(r0, t));
        },
        (Phase::AwaitBestBlockTips, SyncEvent::BestBlock { tips, .. }) => {
            if best_block_outcome(tips@, r0.tip()) is Ok && best_block_outcome(tips@, r0.tip())->Ok_0
                is None {
                lemma_scan_begun_owes(r1, s1, a, t);
            }
        },
        (Phase::AwaitBestBlockNotified, SyncEvent::Notified) => {
            lemma_scan_begun_owes(r1, s1, a, t);
        },
        (Phase::AwaitTransaction, SyncEvent::Transaction { block_hash }) => {
            if block_hash is None {
                lemma_scan_advanced_owes(r0, r1, s0, r0.found(), a, t);
            }
        },
        (Phase::AwaitBlock, SyncEvent::Block { header, height, txs, .. }) => {
            if !block_txids(txs@).contains(r0.lookup()) {
                lemma_round_begun_owes(r1, with_retry_owed(s0), s1, q0, q1, r0.tip(), a, t);
            } else {
                let p = choose|p: int| first_index_of(block_txids(txs@), r0.lookup(), p);
                lemma_scan_advanced_owes(
                    r0,
                    r1,
                    s0,
                    r0.found().push(confirmed_of_block(txs@[p], header, height as u32, p as usize)),
                    a,
                    t,
                );
            }
        },
        _ => {},
    }
}

/// Up to step `k` of a run, `t` was looked up, or its lookup is still owed.
proof fn lemma_lookup_owed_prefix(
    rs: Seq<SyncRun>,
    ss: Seq<SyncState>,
    qs: Seq<FilterQueue>,
    evs: Seq<SyncEvent>,
    acts: Seq<SyncAction>,
    t: Txid,
    k: int,
)
    requires
        is_run(rs, ss, qs, evs, acts),
        rs[0].phase() == Phase::AwaitStartTip,
        qs[0].transactions@.contains(t),
        0 <= k <= evs.len(),
    ensures
        (exists|i: int| 0 <= i <= k && acts[i] == SyncAction::FetchTransaction(t))
            || lookup_owed(rs[k], ss[k], qs[k], acts[k], t),
    decreases k,
{
    if k > 0 {
        lemma_lookup_owed_prefix(rs, ss, qs, evs, acts, t, k - 1);
        let p = k - 1;
        assert(transition(rs[p], rs[p + 1], ss[p], ss[p + 1], qs[p], qs[p + 1], evs[p], acts[p + 1]));
        assert(rs[p].wf() && rs[p + 1].wf() && ss[p].wf() && ss[p + 1].wf());
        if lookup_owed(rs[p], ss[p], qs[p], acts[p], t) {
            lemma_lookup_owed_step(rs[p], rs[k], ss[p], ss[k], qs[p], qs[k], evs[p], acts[p], acts[k], t);
        }
    }
}

/// Every transaction that was registered before a run is looked up during the run,
/// before the run ends without error.
pub proof fn law_registered_tx_looked_up(
    rs: Seq<SyncRun>,
    ss: Seq<SyncState>,
    qs: Seq<FilterQueue>,
    evs: Seq<SyncEvent>,
    acts: Seq<SyncAction>,
    t: Txid,
)
    requires
        is_run(rs, ss, qs, evs, acts),
        rs[0].phase() == Phase::AwaitStartTip,
        acts[0] == SyncAction::FetchTip,
        qs[0].transactions@.contains(t),
        acts.last() == SyncAction::Finish(Ok(())),
    ensures
        exists|i: int| 0 <= i < acts.len() && acts[i] == SyncAction::FetchTransaction(t),
{
    let n = evs.len() as int;
    lemma_lookup_owed_prefix(rs, ss, qs, evs, acts, t, n);
    if n > 0 {
        let p = n - 1;
        assert(transition(rs[p], rs[p + 1], ss[p], ss[p + 1], qs[p], qs[p + 1], evs[p], acts[p + 1]));
        law_finish_ok_only_when_synced(rs[p], rs[n], ss[p], ss[n], qs[p], qs[n], evs[p], acts[n]);
    }
}

/// The action tells the node that `t` is confirmed.
pub open spec fn reports(a: SyncAction, t: Txid) -> bool {
    &&& a is NotifyConfirmed
    &&& exists|i: int|
        0 <= i < a->NotifyConfirmed_0@.len() && (#[trigger] a->NotifyConfirmed_0@[i]).txid == t
}

/// The search in progress has found `t` confirmed.
pub open spec fn found_txid(r: SyncRun, t: Txid) -> bool {
    exists|i: int| 0 <= i < r.found().len() && (#[trigger] r.found()[i]).txid == t
}

/// What `bitcoind` answers of `t` says that `t` is confirmed: a lookup of `t` finds it
/// in a block, and the block holds it.
pub open spec fn answers_confirm(r0: SyncRun, ev: SyncEvent, t: Txid) -> bool {
    r0.lookup() == t ==> match ev {
        SyncEvent::Transaction { block_hash } => r0.phase() == Phase::AwaitTransaction ==> block_hash is Some,
        SyncEvent::Block { txs, .. } => r0.phase() == Phase::AwaitBlock ==> block_txids(txs@).contains(t),
        _ => true,
    }
}

/// The node is owed the news that `t` is confirmed: its lookup is owed, or in progress,
/// or the search in progress has found it; a retry is owed meanwhile.
pub open spec fn report_owed(r: SyncRun, s: SyncState, q: FilterQueue, a: SyncAction, t: Txid) -> bool {
    ||| lookup_owed(r, s, q, a, t)
    ||| {
        &&& s.watched_transactions@.contains(t)
        &&& s.pending_sync
        &&& r.lookup() == t
        &&& (r.phase() == Phase::AwaitTransaction || r.phase() == Phase::AwaitBlock)
    }
    ||| {
        &&& s.watched_transactions@.contains(t)
        &&& s.pending_sync
        &&& found_txid(r, t)
        &&& (r.phase() == Phase::AwaitTransaction || r.phase() == Phase::AwaitBlock
            || r.phase() == Phase::AwaitSyncedBlockInfo || r.phase() == Phase::AwaitSpendBlock
            || r.phase() == Phase::AwaitConfirmedRecheck)
    }
}

proof fn lemma_multiset_keeps(f0: Seq<ConfirmedTx>, f1: Seq<ConfirmedTx>, extra: Multiset<ConfirmedTx>, c: ConfirmedTx)
    requires
        f1.to_multiset() == f0.to_multiset().add(extra),
        f0.contains(c) || extra.count(c) > 0,
    ensures
        f1.contains(c),
{
    broadcast use vstd::seq_lib::group_to_multiset_ensures;

    assert(f1.to_multiset().count(c) > 0);
}

proof fn lemma_found_kept(f0: Seq<ConfirmedTx>, f1: Seq<ConfirmedTx>, extra: Multiset<ConfirmedTx>, t: Txid)
    requires
        f1.to_multiset() == f0.to_multiset().add(extra),
        exists|i: int| 0 <= i < f0.len() && (#[trigger] f0[i]).txid == t,
    ensures
        exists|i: int| 0 <= i < f1.len() && (#[trigger] f1[i]).txid == t,
{
    let i = choose|i: int| 0 <= i < f0.len() && (#[trigger] f0[i]).txid == t;
    lemma_multiset_keeps(f0, f1, extra, f0[i]);
    let k = choose|k: int| 0 <= k < f1.len() && f1[k] == f0[i];
    assert(f1[k].txid == t);
}

proof fn lemma_scan_advanced_keeps_found(
    r1: SyncRun,
    s: SyncState,
    found0: Seq<ConfirmedTx>,
    idx: int,
    a: SyncAction,
    t: Txid,
)
    requires
        scan_advanced(r1, s, found0, idx, a),
        exists|i: int| 0 <= i < found0.len() && (#[trigger] found0[i]).txid == t,
    ensures
        found_txid(r1, t),
{
    assert(found0.to_multiset().add(Multiset::empty()) =~= found0.to_multiset());
    if r1.found() != found0 {
        lemma_found_kept(found0, r1.found(), Multiset::empty(), t);
    }
}

proof fn lemma_first_index_exists(s: Seq<Txid>, t: Txid)
    requires
        s.contains(t),
    ensures
        exists|p: int| first_index_of(s, t, p),
    decreases s.len(),
{
    if s[0] == t {
        assert(first_index_of(s, t, 0));
    } else {
        let i = choose|i: int| 0 <= i < s.len() && s[i] == t;
        let s2 = s.drop_first();
        assert(s2[i - 1] == t);
        lemma_first_index_exists(s2, t);
        let p = choose|p: int| first_index_of(s2, t, p);
        assert forall|j: int| 0 <= j < p + 1 implies s[j] != t by {
            if j > 0 {
                assert(s[j] == s2[j - 1]);
            }
        }
        assert(first_index_of(s, t, p + 1));
    }
}

/// One step keeps the news that `t` is confirmed owed, unless it gives that news.
proof fn lemma_report_owed_step(
    r0: SyncRun,
    r1: SyncRun,
    s0: SyncState,
    s1: SyncState,
    q0: FilterQueue,
    q1: FilterQueue,
    ev: SyncEvent,
    a0: SyncAction,
    a: SyncAction,
    t: Txid,
)
    requires
        r0.wf(),
        r1.wf(),
        s0.wf(),
        s1.wf(),
        transition(r0, r1, s0, s1, q0, q1, ev, a),
        report_owed(r0, s0, q0, a0, t),
        answers_confirm(r0, ev, t),
    ensures
        reports(a, t) || report_owed(r1, s1, q1, a, t),
{
    if lookup_owed(r0, s0, q0, a0, t) {
        lemma_lookup_owed_step(r0, r1, s0, s1, q0, q1, ev, a0, a, t);
    } else if s0.watched_transactions@.contains(t) && s0.pending_sync && r0.lookup() == t && (
    r0.phase() == Phase::AwaitTransaction || r0.phase() == Phase::AwaitBlock) {
        match (r0.phase(), ev) {
            (Phase::AwaitBlock, SyncEvent::Block { header, height, txs, .. }) => {
                assert(block_txids(txs@).contains(t));
                lemma_first_index_exists(block_txids(txs@), t);
                let p = choose|p: int| first_index_of(block_txids(txs@), r0.lookup(), p);
                assert(block_txids(txs@)[p] == txs@[p].txid);
                let f = r0.found().push(confirmed_of_block(txs@[p], header, height as u32, p as usize));
                assert(f[f.len() - 1].txid == t);
                lemma_scan_advanced_keeps_found(r1, s0, f, r0.next_scan() + 1, a, t);
            },
            _ => {},
        }
    } else {
        let i0 = choose|i: int| 0 <= i < r0.found().len() && (#[trigger] r0.found()[i]).txid == t;
        assert(r0.found()[i0].txid == t);
        match (r0.phase(), ev) {
            (Phase::AwaitConfirmedRecheck, SyncEvent::Tip(h)) => {
                if h != r0.tip() {
                    lemma_round_begun_owes(r1, s0, s1, q0, q1, h, a, t);
                } else {
                    assert(a->NotifyConfirmed_0@[i0].txid == t);
                }
            },
            (Phase::AwaitTransaction, SyncEvent::Transaction { block_hash }) => {
                if block_hash is None {
                    lemma_scan_advanced_keeps_found(r1, s0, r0.found(), r0.next_scan() + 1, a, t);
                } else {
                    assert(r1.found()[i0].txid == t);
                }
            },
            (Phase::AwaitBlock, SyncEvent::Block { header, height, txs, .. }) => {
                if !block_txids(txs@).contains(r0.lookup()) {
                    lemma_round_begun_owes(r1, with_retry_owed(s0), s1, q0, q1, r0.tip(), a, t);
                } else {
                    let p = choose|p: int| first_index_of(block_txids(txs@), r0.lookup(), p);
                    let f = r0.found().push(confirmed_of_block(txs@[p], header, height as u32, p as usize));
                    assert(f[i0].txid == t);
                    lemma_scan_advanced_keeps_found(r1, s0, f, r0.next_scan() + 1, a, t);
                }
            },
            (Phase::AwaitSyncedBlockInfo, SyncEvent::BlockInfo { .. }) => {
                assert(r1.found()[i0].txid == t);
            },
            (Phase::AwaitSpendBlock, SyncEvent::Block { header, height, prev, txs }) => {
                let added = if above_floor(height, r0.floor()) {
                    spends_in_block(txs@, header, height as u32, s0.watched_outputs@, 0)
                } else {
                    Seq::<ConfirmedTx>::empty()
                };
                lemma_found_kept(r0.found(), r1.found(), added.to_multiset(), t);
            },
            _ => {},
        }
    }
}

/// Up to step `k` of a run, the node was told that `t` is confirmed, or that news is
/// still owed.
proof fn lemma_report_owed_prefix(
    rs: Seq<SyncRun>,
    ss: Seq<SyncState>,
    qs: Seq<FilterQueue>,
    evs: Seq<SyncEvent>,
    acts: Seq<SyncAction>,
    t: Txid,
    k: int,
)
    requires
        is_run(rs, ss, qs, evs, acts),
        rs[0].phase() == Phase::AwaitStartTip,
        qs[0].transactions@.contains(t),
        forall|i: int| 0 <= i < evs.len() ==> answers_confirm(rs[i], #[trigger] evs[i], t),
        0 <= k <= evs.len(),
    ensures
        (exists|i: int| 0 <= i <= k && reports(#[trigger] acts[i], t))
            || report_owed(rs[k], ss[k], qs[k], acts[k], t),
    decreases k,
{
    if k > 0 {
        lemma_report_owed_prefix(rs, ss, qs, evs, acts, t, k - 1);
        let p = k - 1;
        assert(transition(rs[p], rs[p + 1], ss[p], ss[p + 1], qs[p], qs[p + 1], evs[p], acts[p + 1]));
        assert(rs[p].wf() && rs[p + 1].wf() && ss[p].wf() && ss[p + 1].wf());
        assert(answers_confirm(rs[p], evs[p], t));
        if report_owed(rs[p], ss[p], qs[p], acts[p], t) {
            lemma_report_owed_step(rs[p], rs[k], ss[p], ss[k], qs[p], qs[k], evs[p], acts[p], acts[k], t);
        }
    }
}

/// A transaction that was registered before a run, and that `bitcoind` reports
/// confirmed in a block of its chain, is reported confirmed to the node before the run
/// ends without error.
pub proof fn law_registered_confirmed_tx_reported(
    rs: Seq<SyncRun>,
    ss: Seq<SyncState>,
    qs: Seq<FilterQueue>,
    evs: Seq<SyncEvent>,
    acts: Seq<SyncAction>,
    t: Txid,
)
    requires
        is_run(rs, ss, qs, evs, acts),
        rs[0].phase() == Phase::AwaitStartTip,
        acts[0] == SyncAction::FetchTip,
        qs[0].transactions@.contains(t),
        acts.last() == SyncAction::Finish(Ok(())),
        forall|i: int| 0 <= i < evs.len() ==> answers_confirm(rs[i], #[trigger] evs[i], t),
    ensures
        exists|i: int| 0 <= i < acts.len() && reports(#[trigger] acts[i], t),
{
    let n = evs.len() as int;
    lemma_report_owed_prefix(rs, ss, qs, evs, acts, t, n);
    if n > 0 {
        let p = n - 1;
        assert(transition(rs[p], rs[p + 1], ss[p], ss[p + 1], qs[p], qs[p + 1], evs[p], acts[p + 1]));
        law_finish_ok_only_when_synced(rs[p], rs[n], ss[p], ss[n], qs[p], qs[n], evs[p], acts[n]);
    }
}

/// The queue is empty while the run goes on, once its first round has begun.
pub open spec fn queue_settled(r: SyncRun, q: FilterQueue) -> bool {
    r.phase() != Phase::AwaitStartTip && r.phase() != Phase::Done ==> q.is_idle()
}

/// The node was told that `t` is confirmed, and `t` is no longer watched, while the run
/// waits for that news to be delivered or after it is over; or the run ended with an
/// error.
pub open spec fn report_given(r: SyncRun, s: SyncState, a: SyncAction, t: Txid) -> bool {
    ||| {
        &&& (r.phase() == Phase::AwaitConfirmedNotified || r.phase() == Phase::Done)
        &&& !s.watched_transactions@.contains(t)
    }
    ||| r.phase() == Phase::Done && a == SyncAction::Finish(Err(TxSyncError::Failed))
}

/// One step keeps the news that `t` is confirmed owed, or given with `t` unwatched.
proof fn lemma_report_given_step(
    r0: SyncRun,
    r1: SyncRun,
    s0: SyncState,
    s1: SyncState,
    q0: FilterQueue,
    q1: FilterQueue,
    ev: SyncEvent,
    a0: SyncAction,
    a: SyncAction,
    t: Txid,
)
    requires
        r0.wf(),
        r1.wf(),
        s0.wf(),
        s1.wf(),
        transition(r0, r1, s0, s1, q0, q1, ev, a),
        queue_settled(r0, q0),
        report_owed(r0, s0, q0, a0, t) || report_given(r0, s0, a0, t),
        answers_confirm(r0, ev, t),
    ensures
        queue_settled(r1, q1),
        report_owed(r1, s1, q1, a, t) || report_given(r1, s1, a, t),
{
    if report_owed(r0, s0, q0, a0, t) {
        lemma_report_owed_step(r0, r1, s0, s1, q0, q1, ev, a0, a, t);
        if !report_owed(r1, s1, q1, a, t) {
            let v = a->NotifyConfirmed_0@;
            law_confirmed_in_order_and_unwatched(r0, r1, s0, s1, q0, q1, ev, a);
            let i = choose|i: int| 0 <= i < v.len() && (#[trigger] v[i]).txid == t;
            assert(!s1.watched_transactions@.contains(v[i].txid));
            assert(r0.phase() == Phase::AwaitConfirmedRecheck);
        }
    } else {
        match (r0.phase(), ev) {
            (Phase::AwaitConfirmedNotified, SyncEvent::Notified) => {
                assert(q0.is_idle());
                assert(q0.transactions@ =~= Set::<Txid>::empty());
                assert(!s1.watched_transactions@.contains(t));
            },
            _ => {},
        }
    }
}

/// Up to step `k` of a run, the queue is settled, and the news that `t` is confirmed is
/// owed, or was given with `t` unwatched.
proof fn lemma_report_given_prefix(
    rs: Seq<SyncRun>,
    ss: Seq<SyncState>,
    qs: Seq<FilterQueue>,
    evs: Seq<SyncEvent>,
    acts: Seq<SyncAction>,
    t: Txid,
    k: int,
)
    requires
        is_run(rs, ss, qs, evs, acts),
        rs[0].phase() == Phase::AwaitStartTip,
        qs[0].transactions@.contains(t),
        forall|i: int| 0 <= i < evs.len() ==> answers_confirm(rs[i], #[trigger] evs[i], t),
        0 <= k <= evs.len(),
    ensures
        queue_settled(rs[k], qs[k]),
        report_owed(rs[k], ss[k], qs[k], acts[k], t) || report_given(rs[k], ss[k], acts[k], t),
    decreases k,
{
    if k > 0 {
        lemma_report_given_prefix(rs, ss, qs, evs, acts, t, k - 1);
        let p = k - 1;
        assert(transition(rs[p], rs[p + 1], ss[p], ss[p + 1], qs[p], qs[p + 1], evs[p], acts[p + 1]));
        assert(rs[p].wf() && rs[p + 1].wf() && ss[p].wf() && ss[p + 1].wf());
        assert(answers_confirm(rs[p], evs[p], t));
        lemma_report_given_step(rs[p], rs[k], ss[p], ss[k], qs[p], qs[k], evs[p], acts[p], acts[k], t);
    }
}

/// A transaction that was registered before a run, and that `bitcoind` reports
/// confirmed in a block of its chain, is no longer watched when the run ends without
/// error.
pub proof fn law_registered_confirmed_tx_unwatched(
    rs: Seq<SyncRun>,
    ss: Seq<SyncState>,
    qs: Seq<FilterQueue>,
    evs: Seq<SyncEvent>,
    acts: Seq<SyncAction>,
    t: Txid,
)
    requires
        is_run(rs, ss, qs, evs, acts),
        rs[0].phase() == Phase::AwaitStartTip,
        acts[0] == SyncAction::FetchTip,
        qs[0].transactions@.contains(t),
        acts.last() == SyncAction::Finish(Ok(())),
        forall|i: int| 0 <= i < evs.len() ==> answers_confirm(rs[i], #[trigger] evs[i], t),
    ensures
        !ss.last().watched_transactions@.contains(t),
{
    let n = evs.len() as int;
    lemma_report_given_prefix(rs, ss, qs, evs, acts, t, n);
    if n > 0 {
        let p = n - 1;
        assert(transition(rs[p], rs[p + 1], ss[p], ss[p + 1], qs[p], qs[p + 1], evs[p], acts[p + 1]));
        law_finish_ok_only_when_synced(rs[p], rs[n], ss[p], ss[n], qs[p], qs[n], evs[p], acts[n]);
    }
}

/// What `bitcoind` answers of `t` places `t` in one block, as `c` describes it: a
/// lookup of `t` finds it in a block, and the block holds it, first at the position,
/// under the header and at the height that `c` gives.
pub open spec fn answers_place(r0: SyncRun, ev: SyncEvent, t: Txid, c: ConfirmedTx) -> bool {
    r0.lookup() == t ==> match ev {
        SyncEvent::Transaction { block_hash } => r0.phase() == Phase::AwaitTransaction ==> block_hash is Some,
        SyncEvent::Block { header, height, txs, .. } => r0.phase() == Phase::AwaitBlock ==> {
            &&& block_txids(txs@).contains(t)
            &&& forall|p: int| #[trigger] first_index_of(block_txids(txs@), t, p)
                ==> c == confirmed_of_block(txs@[p], header, height as u32, p as usize)
        },
        _ => true,
    }
}

/// The node is owed the news that `t` is confirmed as `c` describes it: the lookup of
/// `t` is owed, or in progress, or the search in progress has found `c`; a retry is owed
/// meanwhile.
pub open spec fn placement_owed(r: SyncRun, s: SyncState, q: FilterQueue, a: SyncAction, t: Txid, c: ConfirmedTx) -> bool {
    ||| lookup_owed(r, s, q, a, t)
    ||| {
        &&& s.watched_transactions@.contains(t)
        &&& s.pending_sync
        &&& r.lookup() == t
        &&& (r.phase() == Phase::AwaitTransaction || r.phase() == Phase::AwaitBlock)
    }
    ||| {
        &&& s.watched_transactions@.contains(t)
        &&& s.pending_sync
        &&& r.found().contains(c)
        &&& (r.phase() == Phase::AwaitTransaction || r.phase() == Phase::AwaitBlock
            || r.phase() == Phase::AwaitSyncedBlockInfo || r.phase() == Phase::AwaitSpendBlock
            || r.phase() == Phase::AwaitConfirmedRecheck)
    }
}

/// The action tells the node of `c`.
pub open spec fn reports_item(a: SyncAction, c: ConfirmedTx) -> bool {
    a is NotifyConfirmed && a->NotifyConfirmed_0@.contains(c)
}

proof fn lemma_scan_advanced_keeps_item(
    r1: SyncRun,
    s: SyncState,
    found0: Seq<ConfirmedTx>,
    idx: int,
    a: SyncAction,
    c: ConfirmedTx,
)
    requires
        scan_advanced(r1, s, found0, idx, a),
        found0.contains(c),
    ensures
        r1.found().contains(c),
{
    assert(found0.to_multiset().add(Multiset::empty()) =~= found0.to_multiset());
    if r1.found() != found0 {
        lemma_multiset_keeps(found0, r1.found(), Multiset::empty(), c);
    }
}

/// One step keeps the news of `c` owed, unless it gives that news.
proof fn lemma_placement_owed_step(
    r0: SyncRun,
    r1: SyncRun,
    s0: SyncState,
    s1: SyncState,
    q0: FilterQueue,
    q1: FilterQueue,
    ev: SyncEvent,
    a0: SyncAction,
    a: SyncAction,
    t: Txid,
    c: ConfirmedTx,
)
    requires
        r0.wf(),
        r1.wf(),
        s0.wf(),
        s1.wf(),
        transition(r0, r1, s0, s1, q0, q1, ev, a),
        placement_owed(r0, s0, q0, a0, t, c),
        answers_place(r0, ev, t, c),
    ensures
        reports_item(a, c) || placement_owed(r1, s1, q1, a, t, c),
{
    if lookup_owed(r0, s0, q0, a0, t) {
        lemma_lookup_owed_step(r0, r1, s0, s1, q0, q1, ev, a0, a, t);
    } else if s0.watched_transactions@.contains(t) && s0.pending_sync && r0.lookup() == t && (
    r0.phase() == Phase::AwaitTransaction || r0.phase() == Phase::AwaitBlock) {
        match (r0.phase(), ev) {
            (Phase::AwaitBlock, SyncEvent::Block { header, height, txs, .. }) => {
                assert(block_txids(txs@).contains(t));
                lemma_first_index_exists(block_txids(txs@), t);
                let p = choose|p: int| first_index_of(block_txids(txs@), r0.lookup(), p);
                let f = r0.found().push(confirmed_of_block(txs@[p], header, height as u32, p as usize));
                assert(f[f.len() - 1] == c);
                lemma_scan_advanced_keeps_item(r1, s0, f, r0.next_scan() + 1, a, c);
            },
            _ => {},
        }
    } else {
        match (r0.phase(), ev) {
            (Phase::AwaitConfirmedRecheck, SyncEvent::Tip(h)) => {
                if h != r0.tip() {
                    lemma_round_begun_owes(r1, s0, s1, q0, q1, h, a, t);
                }
            },
            (Phase::AwaitTransaction, SyncEvent::Transaction { block_hash }) => {
                if block_hash is None {
                    lemma_scan_advanced_keeps_item(r1, s0, r0.found(), r0.next_scan() + 1, a, c);
                }
            },
            (Phase::AwaitBlock, SyncEvent::Block { header, height, txs, .. }) => {
                if !block_txids(txs@).contains(r0.lookup()) {
                    lemma_round_begun_owes(r1, with_retry_owed(s0), s1, q0, q1, r0.tip(), a, t);
                } else {
                    let p = choose|p: int| first_index_of(block_txids(txs@), r0.lookup(), p);
                    let f = r0.found().push(confirmed_of_block(txs@[p], header, height as u32, p as usize));
                    let i0 = choose|i: int| 0 <= i < r0.found().len() && r0.found()[i] == c;
                    assert(f[i0] == c);
                    lemma_scan_advanced_keeps_item(r1, s0, f, r0.next_scan() + 1, a, c);
                }
            },
            (Phase::AwaitSpendBlock, SyncEvent::Block { header, height, prev, txs }) => {
                let added = if above_floor(height, r0.floor()) {
                    spends_in_block(txs@, header, height as u32, s0.watched_outputs@, 0)
                } else {
                    Seq::<ConfirmedTx>::empty()
                };
                lemma_multiset_keeps(r0.found(), r1.found(), added.to_multiset(), c);
            },
            _ => {},
        }
    }
}

/// Up to step `k` of a run, the node was told of `c`, or that news is still owed.
proof fn lemma_placement_owed_prefix(
    rs: Seq<SyncRun>,
    ss: Seq<SyncState>,
    qs: Seq<FilterQueue>,
    evs: Seq<SyncEvent>,
    acts: Seq<SyncAction>,
    t: Txid,
    c: ConfirmedTx,
    k: int,
)
    requires
        is_run(rs, ss, qs, evs, acts),
        rs[0].phase() == Phase::AwaitStartTip,
        qs[0].transactions@.contains(t),
        forall|i: int| 0 <= i < evs.len() ==> answers_place(rs[i], #[trigger] evs[i], t, c),
        0 <= k <= evs.len(),
    ensures
        (exists|i: int| 0 <= i <= k && reports_item(#[trigger] acts[i], c))
            || placement_owed(rs[k], ss[k], qs[k], acts[k], t, c),
    decreases k,
{
    if k > 0 {
        lemma_placement_owed_prefix(rs, ss, qs, evs, acts, t, c, k - 1);
        let p = k - 1;
        assert(transition(rs[p], rs[p + 1], ss[p], ss[p + 1], qs[p], qs[p + 1], evs[p], acts[p + 1]));
        assert(rs[p].wf() && rs[p + 1].wf() && ss[p].wf() && ss[p + 1].wf());
        assert(answers_place(rs[p], evs[p], t, c));
        if placement_owed(rs[p], ss[p], qs[p], acts[p], t, c) {
            lemma_placement_owed_step(rs[p], rs[k], ss[p], ss[k], qs[p], qs[k], evs[p], acts[p], acts[k], t, c);
        }
    }
}

/// A transaction that was registered before a run, and that `bitcoind` places in a
/// block of its chain, is reported to the node before the run ends without error, with
/// that block's header and height and its position in the block.
pub proof fn law_registered_tx_reported_with_its_block(
    rs: Seq<SyncRun>,
    ss: Seq<SyncState>,
    qs: Seq<FilterQueue>,
    evs: Seq<SyncEvent>,
    acts: Seq<SyncAction>,
    t: Txid,
    c: ConfirmedTx,
)
    requires
        is_run(rs, ss, qs, evs, acts),
        rs[0].phase() == Phase::AwaitStartTip,
        acts[0] == SyncAction::FetchTip,
        qs[0].transactions@.contains(t),
        acts.last() == SyncAction::Finish(Ok(())),
        forall|i: int| 0 <= i < evs.len() ==> answers_place(rs[i], #[trigger] evs[i], t, c),
    ensures
        exists|i: int| 0 <= i < acts.len() && reports_item(#[trigger] acts[i], c),
{
    let n = evs.len() as int;
    lemma_placement_owed_prefix(rs, ss, qs, evs, acts, t, c, n);
    if n > 0 {
        let p = n - 1;
        assert(transition(rs[p], rs[p + 1], ss[p], ss[p + 1], qs[p], qs[p + 1], evs[p], acts[p + 1]));
        law_finish_ok_only_when_synced(rs[p], rs[n], ss[p], ss[n], qs[p], qs[n], evs[p], acts[n]);
    }
}

/// Where a phase stands in a round: the re-check of relevant transactions, then the
/// news of unconfirmed transactions, then the best block, then the search for
/// confirmations and their news.
pub open spec fn phase_rank(p: Phase) -> int {
    match p {
        Phase::AwaitStartTip => 0,
        Phase::AwaitRelevant => 1,
        Phase::AwaitRelevantBlock => 2,
        Phase::AwaitUnconfirmedRecheck => 3,
        Phase::AwaitUnconfirmedNotified => 4,
        Phase::AwaitBestBlockTips => 5,
        Phase::AwaitBestBlockNotified => 6,
        Phase::AwaitTransaction | Phase::AwaitBlock | Phase::AwaitSyncedBlockInfo
        | Phase::AwaitSpendBlock => 7,
        Phase::AwaitConfirmedRecheck => 8,
        Phase::AwaitConfirmedNotified => 9,
        Phase::Done => 10,
    }
}

/// The step begins a new round: at the start of the run, after a change of the best
/// block hash, after an inconsistency, or after a complete round.
pub open spec fn begins_round(r0: SyncRun, ev: SyncEvent) -> bool {
    ||| r0.phase() == Phase::AwaitStartTip && ev is Tip
    ||| (r0.phase() == Phase::AwaitUnconfirmedRecheck || r0.phase() == Phase::AwaitConfirmedRecheck)
        && ev is Tip && ev->Tip_0 != r0.tip()
    ||| r0.phase() == Phase::AwaitConfirmedNotified && ev is Notified
    ||| inconsistent_outcome(r0, ev)
}

/// Where an action that reaches the node stands in a round: asking for the relevant
/// transactions, telling of unconfirmed ones, of the best block, of confirmed ones.
pub open spec fn node_call_rank(a: SyncAction) -> Option<int> {
    match a {
        SyncAction::CollectRelevant => Some(1),
        SyncAction::NotifyUnconfirmed(_) => Some(4),
        SyncAction::NotifyBestBlock(_, _) => Some(6),
        SyncAction::NotifyConfirmed(_) => Some(9),
        _ => None,
    }
}

/// A step that does not begin a round never goes back in the round, and an action that
/// reaches the node stands where the run does after the step.
pub proof fn law_round_moves_forward(
    r0: SyncRun,
    r1: SyncRun,
    s0: SyncState,
    s1: SyncState,
    q0: FilterQueue,
    q1: FilterQueue,
    ev: SyncEvent,
    a: SyncAction,
)
    requires
        transition(r0, r1, s0, s1, q0, q1, ev, a),
    ensures
        !begins_round(r0, ev) ==> phase_rank(r0.phase()) <= phase_rank(r1.phase()),
        node_call_rank(a) is Some ==> node_call_rank(a) == Some(phase_rank(r1.phase())),
{
}

proof fn lemma_round_order_prefix(
    rs: Seq<SyncRun>,
    ss: Seq<SyncState>,
    qs: Seq<FilterQueue>,
    evs: Seq<SyncEvent>,
    acts: Seq<SyncAction>,
    i: int,
    j: int,
)
    requires
        is_run(rs, ss, qs, evs, acts),
        0 <= i <= j < rs.len(),
        forall|k: int| i <= k < j ==> !begins_round(rs[k], #[trigger] evs[k]),
    ensures
        phase_rank(rs[i].phase()) <= phase_rank(rs[j].phase()),
    decreases j - i,
{
    if i < j {
        lemma_round_order_prefix(rs, ss, qs, evs, acts, i, j - 1);
        let p = j - 1;
        assert(transition(rs[p], rs[p + 1], ss[p], ss[p + 1], qs[p], qs[p + 1], evs[p], acts[p + 1]));
        assert(!begins_round(rs[p], evs[p]));
        law_round_moves_forward(rs[p], rs[j], ss[p], ss[j], qs[p], qs[j], evs[p], acts[j]);
    }
}

/// Within a round, the node is asked for the relevant transactions before it is told of
/// unconfirmed ones, of those before it is told of the best block, and of that before
/// it is told of confirmed ones.
pub proof fn law_round_order(
    rs: Seq<SyncRun>,
    ss: Seq<SyncState>,
    qs: Seq<FilterQueue>,
    evs: Seq<SyncEvent>,
    acts: Seq<SyncAction>,
    i: int,
    j: int,
)
    requires
        is_run(rs, ss, qs, evs, acts),
        1 <= i <= j < acts.len(),
        forall|k: int| i <= k < j ==> !begins_round(rs[k], #[trigger] evs[k]),
        node_call_rank(acts[i]) is Some,
        node_call_rank(acts[j]) is Some,
    ensures
        node_call_rank(acts[i])->Some_0 <= node_call_rank(acts[j])->Some_0,
{
    let pi = i - 1;
    let pj = j - 1;
    assert(transition(rs[pi], rs[pi + 1], ss[pi], ss[pi + 1], qs[pi], qs[pi + 1], evs[pi], acts[pi + 1]));
    assert(transition(rs[pj], rs[pj + 1], ss[pj], ss[pj + 1], qs[pj], qs[pj + 1], evs[pj], acts[pj + 1]));
    law_round_moves_forward(rs[pi], rs[i], ss[pi], ss[i], qs[pi], qs[i], evs[pi], acts[i]);
    law_round_moves_forward(rs[pj], rs[j], ss[pj], ss[j], qs[pj], qs[j], evs[pj], acts[j]);
    lemma_round_order_prefix(rs, ss, qs, evs, acts, i, j);
}

proof fn lemma_spend_listed(
    txs: Seq<BlockTx>,
    header: bitcoin::BlockHeader,
    height: u32,
    watched: Set<OutPoint>,
    lo: int,
    p: int,
)
    requires
        0 <= lo <= p < txs.len(),
        spends_watched(txs[p], watched),
    ensures
        spends_in_block(txs, header, height, watched, lo).contains(
            confirmed_of_block(txs[p], header, height, p as usize),
        ),
    decreases p - lo,
{
    let c = confirmed_of_block(txs[p], header, height, p as usize);
    let rest = spends_in_block(txs, header, height, watched, lo + 1);
    if lo == p {
        assert((seq![c] + rest)[0] == c);
    } else {
        lemma_spend_listed(txs, header, height, watched, lo + 1, p);
        let k = choose|k: int| 0 <= k < rest.len() && rest[k] == c;
        if spends_watched(txs[lo], watched) {
            let x = confirmed_of_block(txs[lo], header, height, lo as usize);
            assert((seq![x] + rest)[k + 1] == c);
        }
    }
}

/// A spend found in a block of the search stays found until the node is told of it;
/// the run is over otherwise.
pub open spec fn spend_kept(r: SyncRun, a: SyncAction, c: ConfirmedTx) -> bool {
    ||| {
        &&& (r.phase() == Phase::AwaitSpendBlock || r.phase() == Phase::AwaitConfirmedRecheck)
        &&& r.found().contains(c)
        &&& !(a is NotifyConfirmed)
    }
    ||| r.phase() == Phase::AwaitConfirmedNotified && a is NotifyConfirmed && a->NotifyConfirmed_0@.contains(c)
    ||| r.phase() == Phase::Done && a is Finish
}

proof fn lemma_spend_kept_step(
    r0: SyncRun,
    r1: SyncRun,
    s0: SyncState,
    s1: SyncState,
    q0: FilterQueue,
    q1: FilterQueue,
    ev: SyncEvent,
    a0: SyncAction,
    a: SyncAction,
    c: ConfirmedTx,
)
    requires
        transition(r0, r1, s0, s1, q0, q1, ev, a),
        spend_kept(r0, a0, c),
        !begins_round(r0, ev),
    ensures
        spend_kept(r1, a, c),
{
    broadcast use vstd::seq_lib::group_to_multiset_ensures;

    match (r0.phase(), ev) {
        (Phase::AwaitSpendBlock, SyncEvent::Block { header, height, prev, txs }) => {
            let added = if above_floor(height, r0.floor()) {
                spends_in_block(txs@, header, height as u32, s0.watched_outputs@, 0)
            } else {
                Seq::<ConfirmedTx>::empty()
            };
            lemma_multiset_keeps(r0.found(), r1.found(), added.to_multiset(), c);
        },
        _ => {},
    }
}

proof fn lemma_spend_kept_prefix(
    rs: Seq<SyncRun>,
    ss: Seq<SyncState>,
    qs: Seq<FilterQueue>,
    evs: Seq<SyncEvent>,
    acts: Seq<SyncAction>,
    i: int,
    k: int,
    c: ConfirmedTx,
)
    requires
        is_run(rs, ss, qs, evs, acts),
        0 <= i < k < rs.len(),
        spend_kept(rs[i + 1], acts[i + 1], c),
        forall|m: int| i <= m < k ==> !begins_round(rs[m], #[trigger] evs[m]),
    ensures
        spend_kept(rs[k], acts[k], c),
    decreases k - i,
{
    if k > i + 1 {
        lemma_spend_kept_prefix(rs, ss, qs, evs, acts, i, k - 1, c);
        let p = k - 1;
        assert(transition(rs[p], rs[p + 1], ss[p], ss[p + 1], qs[p], qs[p + 1], evs[p], acts[p + 1]));
        assert(!begins_round(rs[p], evs[p]));
        lemma_spend_kept_step(rs[p], rs[k], ss[p], ss[k], qs[p], qs[k], evs[p], acts[p], acts[k], c);
    }
}

/// Every transaction of a searched block, above the height searched before, that spends
/// a watched output is in the news of confirmed transactions that ends the round, with
/// the block's header and height and its position in the block; after that news, none
/// of the outputs it spends is watched.
pub proof fn law_spends_reported(
    rs: Seq<SyncRun>,
    ss: Seq<SyncState>,
    qs: Seq<FilterQueue>,
    evs: Seq<SyncEvent>,
    acts: Seq<SyncAction>,
    i: int,
    j: int,
    p: int,
)
    requires
        is_run(rs, ss, qs, evs, acts),
        0 <= i < j < rs.len(),
        rs[i].phase() == Phase::AwaitSpendBlock,
        evs[i] is Block,
        above_floor(evs[i]->Block_height, rs[i].floor()),
        0 <= p < evs[i]->Block_txs@.len(),
        spends_watched(evs[i]->Block_txs@[p], ss[i].watched_outputs@),
        forall|k: int| i <= k < j ==> !begins_round(rs[k], #[trigger] evs[k]),
        acts[j] is NotifyConfirmed,
    ensures
        acts[j]->NotifyConfirmed_0@.contains(
            confirmed_of_block(
                evs[i]->Block_txs@[p],
                evs[i]->Block_header,
                evs[i]->Block_height as u32,
                p as usize,
            ),
        ),
        forall|k: int| 0 <= k < evs[i]->Block_txs@[p].spent@.len()
            ==> !ss[j].watched_outputs@.contains(#[trigger] evs[i]->Block_txs@[p].spent@[k]),
{
    broadcast use vstd::seq_lib::group_to_multiset_ensures;

    let ev = evs[i];
    let txs = ev->Block_txs@;
    let header = ev->Block_header;
    let height = ev->Block_height;
    let c = confirmed_of_block(txs[p], header, height as u32, p as usize);
    assert(transition(rs[i], rs[i + 1], ss[i], ss[i + 1], qs[i], qs[i + 1], evs[i], acts[i + 1]));
    let added = spends_in_block(txs, header, height as u32, ss[i].watched_outputs@, 0);
    lemma_spend_listed(txs, header, height as u32, ss[i].watched_outputs@, 0, p);
    assert(added.to_multiset().count(c) > 0);
    lemma_multiset_keeps(rs[i].found(), rs[i + 1].found(), added.to_multiset(), c);
    assert(spend_kept(rs[i + 1], acts[i + 1], c));
    lemma_spend_kept_prefix(rs, ss, qs, evs, acts, i, j, c);
    let v = acts[j]->NotifyConfirmed_0@;
    let q = j - 1;
    assert(transition(rs[q], rs[q + 1], ss[q], ss[q + 1], qs[q], qs[q + 1], evs[q], acts[q + 1]));
    law_confirmed_in_order_and_unwatched(rs[q], rs[j], ss[q], ss[j], qs[q], qs[j], evs[q], acts[j]);
    let m = choose|m: int| 0 <= m < v.len() && v[m] == c;
    assert forall|k: int| 0 <= k < txs[p].spent@.len()
        implies !ss[j].watched_outputs@.contains(#[trigger] txs[p].spent@[k]) by {
        assert(v[m].spent@[k] == txs[p].spent@[k]);
    }
}

/// Each relevant transaction is re-checked in turn: after the status of the block of
/// one of them, the status of the block of the next one is asked for, while there is a
/// next one; only after the last is the best block hash asked for again. The
/// transaction is marked unconfirmed exactly when its block is not in the best chain.
pub proof fn law_every_relevant_block_checked(
    r0: SyncRun,
    r1: SyncRun,
    s0: SyncState,
    s1: SyncState,
    q0: FilterQueue,
    q1: FilterQueue,
    ev: SyncEvent,
    a: SyncAction,
)
    requires
        r0.wf(),
        transition(r0, r1, s0, s1, q0, q1, ev, a),
        r0.phase() == Phase::AwaitRelevantBlock,
        ev is BlockInfo,
    ensures
        r1.relevant() == r0.relevant(),
        r1.next_relevant() == r0.next_relevant() + 1,
        r0.next_relevant() + 1 < r0.relevant().len() ==> {
            &&& r1.phase() == Phase::AwaitRelevantBlock
            &&& a == SyncAction::FetchBlockInfo(r0.relevant()[r0.next_relevant() + 1].1)
        },
        r0.next_relevant() + 1 == r0.relevant().len() ==> {
            &&& r1.phase() == Phase::AwaitUnconfirmedRecheck
            &&& a == SyncAction::FetchTip
        },
        ev->BlockInfo_confirmations < 0 ==> r1.unconfirmed() == r0.unconfirmed().push(
            r0.relevant()[r0.next_relevant()].0,
        ),
        ev->BlockInfo_confirmations >= 0 ==> r1.unconfirmed() == r0.unconfirmed(),
{
}

/// A relevant transaction stays marked unconfirmed until the node is told of it, while
/// the round goes on; after that news, no other news of unconfirmed transactions comes
/// in the round.
pub open spec fn stale_kept(r: SyncRun, a: SyncAction, t: Txid) -> bool {
    ||| {
        &&& (r.phase() == Phase::AwaitRelevantBlock || r.phase() == Phase::AwaitUnconfirmedRecheck)
        &&& r.unconfirmed().contains(t)
        &&& !(a is NotifyUnconfirmed)
    }
    ||| {
        &&& r.phase() == Phase::AwaitUnconfirmedNotified
        &&& a is NotifyUnconfirmed
        &&& a->NotifyUnconfirmed_0@.contains(t)
    }
    ||| {
        &&& r.phase() != Phase::AwaitStartTip
        &&& r.phase() != Phase::AwaitRelevant
        &&& r.phase() != Phase::AwaitRelevantBlock
        &&& r.phase() != Phase::AwaitUnconfirmedRecheck
        &&& r.phase() != Phase::AwaitUnconfirmedNotified
        &&& !(a is NotifyUnconfirmed)
    }
}

proof fn lemma_stale_kept_step(
    r0: SyncRun,
    r1: SyncRun,
    s0: SyncState,
    s1: SyncState,
    q0: FilterQueue,
    q1: FilterQueue,
    ev: SyncEvent,
    a0: SyncAction,
    a: SyncAction,
    t: Txid,
)
    requires
        r0.wf(),
        transition(r0, r1, s0, s1, q0, q1, ev, a),
        stale_kept(r0, a0, t),
        !begins_round(r0, ev),
    ensures
        stale_kept(r1, a, t),
{
    match (r0.phase(), ev) {
        (Phase::AwaitRelevantBlock, SyncEvent::BlockInfo { confirmations, .. }) => {
            if confirmations < 0 {
                let u = r0.unconfirmed().push(r0.relevant()[r0.next_relevant()].0);
                let i = choose|i: int| 0 <= i < r0.unconfirmed().len() && r0.unconfirmed()[i] == t;
                assert(u[i] == t);
            }
        },
        (Phase::AwaitUnconfirmedRecheck, SyncEvent::Tip(h)) => {},
        (Phase::AwaitBestBlockTips, SyncEvent::BestBlock { header, tips }) => {},
        (Phase::AwaitBestBlockNotified, SyncEvent::Notified) => {},
        (Phase::AwaitTransaction, SyncEvent::Transaction { block_hash }) => {},
        (Phase::AwaitBlock, SyncEvent::Block { .. }) => {},
        _ => {},
    }
}

proof fn lemma_stale_kept_prefix(
    rs: Seq<SyncRun>,
    ss: Seq<SyncState>,
    qs: Seq<FilterQueue>,
    evs: Seq<SyncEvent>,
    acts: Seq<SyncAction>,
    i: int,
    k: int,
    t: Txid,
)
    requires
        is_run(rs, ss, qs, evs, acts),
        0 <= i < k < rs.len(),
        stale_kept(rs[i + 1], acts[i + 1], t),
        forall|m: int| i <= m < k ==> !begins_round(rs[m], #[trigger] evs[m]),
    ensures
        stale_kept(rs[k], acts[k], t),
    decreases k - i,
{
    if k > i + 1 {
        lemma_stale_kept_prefix(rs, ss, qs, evs, acts, i, k - 1, t);
        let p = k - 1;
        assert(transition(rs[p], rs[p + 1], ss[p], ss[p + 1], qs[p], qs[p + 1], evs[p], acts[p + 1]));
        assert(!begins_round(rs[p], evs[p]));
        assert(rs[p].wf());
        lemma_stale_kept_step(rs[p], rs[k], ss[p], ss[k], qs[p], qs[k], evs[p], acts[p], acts[k], t);
    }
}

/// Every relevant transaction whose block `bitcoind` answered as out of the best chain
/// is in the news of unconfirmed transactions of its round.
pub proof fn law_stale_relevant_unconfirmed(
    rs: Seq<SyncRun>,
    ss: Seq<SyncState>,
    qs: Seq<FilterQueue>,
    evs: Seq<SyncEvent>,
    acts: Seq<SyncAction>,
    i: int,
    j: int,
)
    requires
        is_run(rs, ss, qs, evs, acts),
        0 <= i < j < rs.len(),
        rs[i].phase() == Phase::AwaitRelevantBlock,
        evs[i] is BlockInfo,
        evs[i]->BlockInfo_confirmations < 0,
        forall|k: int| i <= k < j ==> !begins_round(rs[k], #[trigger] evs[k]),
        acts[j] is NotifyUnconfirmed,
    ensures
        acts[j]->NotifyUnconfirmed_0@.contains(rs[i].relevant()[rs[i].next_relevant()].0),
{
    let t = rs[i].relevant()[rs[i].next_relevant()].0;
    assert(transition(rs[i], rs[i + 1], ss[i], ss[i + 1], qs[i], qs[i + 1], evs[i], acts[i + 1]));
    assert(rs[i].wf());
    let u = rs[i + 1].unconfirmed();
    assert(u[u.len() - 1] == t);
    assert(stale_kept(rs[i + 1], acts[i + 1], t));
    lemma_stale_kept_prefix(rs, ss, qs, evs, acts, i, j, t);
}

/// The search for spends finds where the last synced block meets the best chain: from a
/// block still in the best chain, or one without a parent, the search begins at the
/// best block above that block's height; from a block out of the best chain, the
/// status of its parent is asked for.
pub proof fn law_spend_floor_found(
    r0: SyncRun,
    r1: SyncRun,
    s0: SyncState,
    s1: SyncState,
    q0: FilterQueue,
    q1: FilterQueue,
    ev: SyncEvent,
    a: SyncAction,
)
    requires
        transition(r0, r1, s0, s1, q0, q1, ev, a),
        r0.phase() == Phase::AwaitSyncedBlockInfo,
        ev is BlockInfo,
    ensures
        (ev->BlockInfo_confirmations >= 0 || ev->BlockInfo_prev is None) ==> {
            &&& r1.floor() == Some(ev->BlockInfo_height)
            &&& r1.phase() == Phase::AwaitSpendBlock
            &&& a == SyncAction::FetchBlock(r0.tip())
        },
        (ev->BlockInfo_confirmations < 0 && ev->BlockInfo_prev is Some) ==> {
            &&& r1.phase() == Phase::AwaitSyncedBlockInfo
            &&& a == SyncAction::FetchBlockInfo(ev->BlockInfo_prev->Some_0)
        },
{
}

/// The search for spends goes down the best chain one block at a time: from a block
/// more than one above the height searched before, with a parent, the next block
/// fetched is that parent; from any other block the search is over, and the best block
/// hash is asked for again.
pub proof fn law_spend_walk_goes_down(
    r0: SyncRun,
    r1: SyncRun,
    s0: SyncState,
    s1: SyncState,
    q0: FilterQueue,
    q1: FilterQueue,
    ev: SyncEvent,
    a: SyncAction,
)
    requires
        transition(r0, r1, s0, s1, q0, q1, ev, a),
        r0.phase() == Phase::AwaitSpendBlock,
        ev is Block,
    ensures
        (r0.floor() is Some && ev->Block_height > r0.floor()->Some_0 + 1 && ev->Block_prev is Some) ==> {
            &&& r1.phase() == Phase::AwaitSpendBlock
            &&& r1.floor() == r0.floor()
            &&& a == SyncAction::FetchBlock(ev->Block_prev->Some_0)
        },
        !(r0.floor() is Some && ev->Block_height > r0.floor()->Some_0 + 1 && ev->Block_prev is Some) ==> {
            &&& r1.phase() == Phase::AwaitConfirmedRecheck
            &&& a == SyncAction::FetchTip
        },
{
}

/// A block of the search for spends above the height searched before has each of its
/// transactions with an input, at any index, among the watched outputs found, with the
/// block's header and height and its position.
pub proof fn law_spend_walk_collects(
    r0: SyncRun,
    r1: SyncRun,
    s0: SyncState,
    s1: SyncState,
    q0: FilterQueue,
    q1: FilterQueue,
    ev: SyncEvent,
    a: SyncAction,
    p: int,
    k: int,
)
    requires
        transition(r0, r1, s0, s1, q0, q1, ev, a),
        r0.phase() == Phase::AwaitSpendBlock,
        ev is Block,
        r0.floor() is None || ev->Block_height > r0.floor()->Some_0,
        0 <= p < ev->Block_txs@.len(),
        0 <= k < ev->Block_txs@[p].spent@.len(),
        s0.watched_outputs@.contains(ev->Block_txs@[p].spent@[k]),
    ensures
        r1.found().contains(
            ConfirmedTx {
                tx: ev->Block_txs@[p].tx,
                block_header: ev->Block_header,
                block_height: ev->Block_height as u32,
                pos: p as usize,
                txid: ev->Block_txs@[p].txid,
                spent: ev->Block_txs@[p].spent,
            },
        ),
{
    broadcast use vstd::seq_lib::group_to_multiset_ensures;

    let txs = ev->Block_txs@;
    let header = ev->Block_header;
    let height = ev->Block_height;
    let added = spends_in_block(txs, header, height as u32, s0.watched_outputs@, 0);
    law_block_spend_collected(txs, header, height as u32, s0.watched_outputs@, p, k);
    let c = ConfirmedTx {
        tx: txs[p].tx,
        block_header: header,
        block_height: height as u32,
        pos: p as usize,
        txid: txs[p].txid,
        spent: txs[p].spent,
    };
    assert(added.to_multiset().count(c) > 0);
    lemma_multiset_keeps(r0.found(), r1.found(), added.to_multiset(), c);
}

} // verus!
