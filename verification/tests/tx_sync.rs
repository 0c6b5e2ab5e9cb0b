use bitcoind_tx_sync::chain::{best_block_update, dedup_relevant, find_tip};
use bitcoind_tx_sync::confirm::{
    collect_spends, position_of_tx, sort_confirmed, unwatch_confirmed, watch_unconfirmed, BlockTx,
    ConfirmedTx,
};
use bitcoind_tx_sync::error::{InternalError, TxSyncError};
use bitcoind_tx_sync::keyset::KeySet;
use bitcoind_tx_sync::state::{FilterQueue, SyncState};
use bitcoind_tx_sync::sync::{SyncAction, SyncEvent, SyncRun};
use bitcoind_tx_sync::types::{bytes_equal, BlockHash, ChainTip, OutPoint, TipStatus, Txid};

fn txid(n: u8) -> Txid {
    Txid([n; 32])
}

fn bh(n: u8) -> BlockHash {
    BlockHash([n; 32])
}

fn op(n: u8, vout: u32) -> OutPoint {
    OutPoint { txid: txid(n), vout }
}

fn empty_tx() -> bitcoin::Transaction {
    bitcoin::Transaction {
        version: 1,
        lock_time: bitcoin::PackedLockTime(0),
        input: vec![],
        output: vec![],
    }
}

fn header(nonce: u32) -> bitcoin::BlockHeader {
    bitcoin::BlockHeader {
        version: 1,
        prev_blockhash: <bitcoin::BlockHash as bitcoin::hashes::Hash>::all_zeros(),
        merkle_root: <bitcoin::TxMerkleNode as bitcoin::hashes::Hash>::all_zeros(),
        time: 0,
        bits: 0,
        nonce,
    }
}

fn ctx(t: u8, height: u32, pos: usize, spent: Vec<OutPoint>) -> ConfirmedTx {
    ConfirmedTx {
        tx: empty_tx(),
        block_header: header(0),
        block_height: height,
        pos,
        txid: txid(t),
        spent,
    }
}

fn bt(t: u8, spent: Vec<OutPoint>) -> BlockTx {
    BlockTx { tx: empty_tx(), txid: txid(t), spent }
}

fn tip(hash: BlockHash, height: u64, status: TipStatus) -> ChainTip {
    ChainTip { height, hash, status }
}

// ---- errors ----

#[test]
fn tx_sync_error_message() {
    assert_eq!(TxSyncError::Failed.message(), "Failed to conduct transaction sync.");
}

#[test]
fn internal_error_messages() {
    assert_eq!(InternalError::Failed.message(), "Failed to conduct transaction sync.");
    assert_eq!(
        InternalError::Inconsistency.message(),
        "Encountered an inconsistency during transaction sync."
    );
}

#[test]
fn internal_errors_become_failed() {
    assert_eq!(TxSyncError::from(InternalError::Failed), TxSyncError::Failed);
    assert_eq!(TxSyncError::from(InternalError::Inconsistency), TxSyncError::Failed);
}

#[test]
fn outside_errors_become_failed() {
    assert_eq!(TxSyncError::from(bdk::Error::Generic("x".to_string())), TxSyncError::Failed);
    assert_eq!(
        TxSyncError::from(bitcoincore_rpc::Error::ReturnedError("x".to_string())),
        TxSyncError::Failed
    );
    assert_eq!(
        TxSyncError::from(esplora_client::Error::HeaderHeightNotFound(3)),
        TxSyncError::Failed
    );
    assert_eq!(
        InternalError::from(bitcoincore_rpc::Error::ReturnedError("x".to_string())),
        InternalError::Failed
    );
    assert_eq!(
        InternalError::from(bitcoin::consensus::encode::Error::ParseFailed("x")),
        InternalError::Failed
    );
    assert_eq!(
        InternalError::from(bitcoin::blockdata::block::Bip34Error::NotPresent),
        InternalError::Failed
    );
    assert_eq!(
        InternalError::from(esplora_client::Error::NoHeader),
        InternalError::Failed
    );
}

// ---- values ----

#[test]
fn hashes_compare_by_every_byte() {
    let a = [7u8; 32];
    let mut b = [7u8; 32];
    assert!(bytes_equal(&a, &b));
    b[31] = 8;
    assert!(!bytes_equal(&a, &b));
    assert_eq!(txid(1), txid(1));
    assert_ne!(txid(1), txid(2));
    assert_ne!(op(1, 0), op(1, 1));
    assert_eq!(op(1, 0), op(1, 0));
}

#[test]
fn keyset_keeps_each_key_once_in_order() {
    let mut s: KeySet<Txid> = KeySet::new();
    assert!(s.is_empty());
    assert!(s.insert(txid(3)));
    assert!(s.insert(txid(1)));
    assert!(!s.insert(txid(3)));
    assert_eq!(s.len(), 2);
    assert_eq!(s.to_vec(), vec![txid(3), txid(1)]);
    assert!(s.contains(&txid(1)));
    s.remove(&txid(3));
    assert!(!s.contains(&txid(3)));
    assert_eq!(s.to_vec(), vec![txid(1)]);
    s.remove(&txid(9));
    assert_eq!(s.len(), 1);
}

#[test]
fn keyset_drain_moves_everything() {
    let mut a: KeySet<Txid> = KeySet::new();
    let mut b: KeySet<Txid> = KeySet::new();
    a.insert(txid(1));
    a.insert(txid(2));
    b.insert(txid(2));
    b.insert(txid(5));
    a.drain_into(&mut b);
    assert!(a.is_empty());
    assert_eq!(b.to_vec(), vec![txid(2), txid(5), txid(1)]);
}

// ---- queue and state ----

#[test]
fn registered_items_are_watched_after_processing() {
    let mut q = FilterQueue::new();
    let mut st = SyncState::new();
    st.watched_transactions.insert(txid(9));
    q.register_tx(txid(1));
    q.register_tx(txid(1));
    q.register_output(op(2, 4));
    assert!(q.process_queues(&mut st));
    assert!(q.transactions.is_empty() && q.outputs.is_empty());
    assert!(st.watched_transactions.contains(&txid(1)));
    assert!(st.watched_transactions.contains(&txid(9)));
    assert!(st.watched_outputs.contains(&op(2, 4)));
    assert_eq!(st.watched_transactions.len(), 2);
    assert!(!q.process_queues(&mut st));
    assert_eq!(st.last_sync_hash, None);
    assert!(!st.pending_sync);
}

// ---- chain decisions ----

#[test]
fn first_tip_with_the_hash_is_found() {
    let tips = vec![
        tip(bh(1), 10, TipStatus::ValidFork),
        tip(bh(2), 20, TipStatus::Active),
        tip(bh(2), 21, TipStatus::Invalid),
    ];
    assert_eq!(find_tip(&tips, &bh(2)), Some(1));
    assert_eq!(find_tip(&tips, &bh(1)), Some(0));
    assert_eq!(find_tip(&tips, &bh(3)), None);
}

#[test]
fn best_block_update_outcomes() {
    let tips = vec![tip(bh(1), 10, TipStatus::ValidHeaders), tip(bh(2), 800_000, TipStatus::Active)];
    assert_eq!(best_block_update(&tips, &bh(2)), Ok(Some(800_000)));
    assert_eq!(best_block_update(&tips, &bh(1)), Ok(None));
    assert_eq!(best_block_update(&tips, &bh(3)), Err(InternalError::Failed));
    // a height beyond 32 bits is cut to its low 32 bits
    let high = vec![tip(bh(5), (1u64 << 32) + 7, TipStatus::Active)];
    assert_eq!(best_block_update(&high, &bh(5)), Ok(Some(7)));
}

#[test]
fn position_of_tx_is_first_occurrence() {
    let txs = vec![bt(4, vec![]), bt(5, vec![]), bt(5, vec![])];
    assert_eq!(position_of_tx(&txs, &txid(5)), Some(1));
    assert_eq!(position_of_tx(&txs, &txid(4)), Some(0));
    assert_eq!(position_of_tx(&txs, &txid(6)), None);
    assert_eq!(position_of_tx(&vec![], &txid(6)), None);
}

#[test]
fn dedup_keeps_first_occurrences() {
    let v = vec![(txid(1), bh(1)), (txid(2), bh(1)), (txid(1), bh(1)), (txid(1), bh(2))];
    let d = dedup_relevant(&v);
    assert_eq!(d, vec![(txid(1), bh(1)), (txid(2), bh(1)), (txid(1), bh(2))]);
    assert!(dedup_relevant(&vec![]).is_empty());
}

// ---- confirmations ----

#[test]
fn spends_of_watched_outputs_are_collected() {
    let mut watched: KeySet<OutPoint> = KeySet::new();
    watched.insert(op(6, 0));
    watched.insert(op(6, 1));
    let txs = vec![
        bt(1, vec![op(9, 9)]),
        bt(2, vec![op(6, 0)]),
        bt(3, vec![]),
        bt(4, vec![op(8, 8), op(6, 1)]),
    ];
    let mut found = vec![ctx(7, 1, 0, vec![])];
    collect_spends(txs, header(3), 55, &watched, &mut found);
    found.sort_by_key(|c| (c.block_height, c.pos));
    assert_eq!(found.len(), 3);
    assert_eq!(found[0].txid, txid(7));
    assert_eq!(found[1].txid, txid(2));
    assert_eq!(found[1].pos, 1);
    assert_eq!(found[1].block_height, 55);
    assert_eq!(found[1].block_header.nonce, 3);
    assert_eq!(found[1].spent, vec![op(6, 0)]);
    assert_eq!(found[2].txid, txid(4));
    assert_eq!(found[2].pos, 3);
    let mut none = Vec::new();
    collect_spends(vec![bt(1, vec![op(6, 2)])], header(0), 1, &watched, &mut none);
    assert!(none.is_empty());
}

#[test]
fn confirmed_sorted_by_height_then_position() {
    let v = vec![ctx(1, 5, 2, vec![]), ctx(2, 3, 9, vec![]), ctx(3, 5, 0, vec![]), ctx(4, 3, 1, vec![])];
    let s = sort_confirmed(v);
    let order: Vec<Txid> = s.iter().map(|c| c.txid).collect();
    assert_eq!(order, vec![txid(4), txid(2), txid(3), txid(1)]);
    assert!(sort_confirmed(vec![]).is_empty());
}

#[test]
fn unconfirmed_are_watched_again() {
    let mut st = SyncState::new();
    st.watched_transactions.insert(txid(1));
    watch_unconfirmed(&mut st, &vec![txid(2), txid(1), txid(3)]);
    assert_eq!(st.watched_transactions.to_vec(), vec![txid(1), txid(2), txid(3)]);
}

#[test]
fn confirmed_are_unwatched_with_spent_outputs() {
    let mut st = SyncState::new();
    st.watched_transactions.insert(txid(1));
    st.watched_transactions.insert(txid(2));
    st.watched_outputs.insert(op(7, 0));
    st.watched_outputs.insert(op(8, 1));
    unwatch_confirmed(&mut st, &vec![ctx(1, 10, 0, vec![op(7, 0), op(9, 9)])]);
    assert_eq!(st.watched_transactions.to_vec(), vec![txid(2)]);
    assert_eq!(st.watched_outputs.to_vec(), vec![op(8, 1)]);
}

// ---- runs ----

fn step(run: &mut SyncRun, st: &mut SyncState, q: &mut FilterQueue, ev: SyncEvent) -> SyncAction {
    run.step(st, q, ev)
}

fn block(nonce: u32, height: u64, prev: u8, txs: Vec<BlockTx>) -> SyncEvent {
    SyncEvent::Block { header: header(nonce), height, prev: Some(bh(prev)), txs }
}

fn info(height: u64, confirmations: i32, prev: u8) -> SyncEvent {
    SyncEvent::BlockInfo { height, confirmations, prev: Some(bh(prev)) }
}

/// Takes a state not synced to `h` through the re-check and the news of the new best
/// block `h` at `height`, with nothing to re-check; returns the first action of the
/// search for confirmations.
fn run_to_scan_at(run: &mut SyncRun, st: &mut SyncState, q: &mut FilterQueue, h: BlockHash, height: u64) -> SyncAction {
    assert!(matches!(step(run, st, q, SyncEvent::Tip(h)), SyncAction::CollectRelevant));
    assert!(matches!(step(run, st, q, SyncEvent::Relevant(vec![])), SyncAction::FetchTip));
    match step(run, st, q, SyncEvent::Tip(h)) {
        SyncAction::NotifyUnconfirmed(v) => assert!(v.is_empty()),
        _ => panic!("expected NotifyUnconfirmed"),
    }
    match step(run, st, q, SyncEvent::Notified) {
        SyncAction::FetchBestBlock(b) => assert_eq!(b, h),
        _ => panic!("expected FetchBestBlock"),
    }
    match step(run, st, q, SyncEvent::BestBlock { header: header(4), tips: vec![tip(h, height, TipStatus::Active)] }) {
        SyncAction::NotifyBestBlock(hd, n) => {
            assert_eq!(n as u64, height);
            assert_eq!(hd.nonce, 4);
        },
        _ => panic!("expected NotifyBestBlock"),
    }
    step(run, st, q, SyncEvent::Notified)
}

fn run_to_scan(run: &mut SyncRun, st: &mut SyncState, q: &mut FilterQueue, h: BlockHash) -> SyncAction {
    run_to_scan_at(run, st, q, h, 42)
}

#[test]
fn empty_run_completes_and_marks_synced() {
    let (mut run, a) = SyncRun::start();
    assert!(matches!(a, SyncAction::FetchTip));
    let mut st = SyncState::new();
    let mut q = FilterQueue::new();
    // never synced: the best block alone is searched for spends
    match run_to_scan(&mut run, &mut st, &mut q, bh(1)) {
        SyncAction::FetchBlock(b) => assert_eq!(b, bh(1)),
        _ => panic!("expected FetchBlock"),
    }
    let a = step(&mut run, &mut st, &mut q, block(0, 42, 0, vec![bt(3, vec![])]));
    assert!(matches!(a, SyncAction::FetchTip));
    match step(&mut run, &mut st, &mut q, SyncEvent::Tip(bh(1))) {
        SyncAction::NotifyConfirmed(v) => assert!(v.is_empty()),
        _ => panic!("expected NotifyConfirmed"),
    }
    let a = step(&mut run, &mut st, &mut q, SyncEvent::Notified);
    assert!(matches!(a, SyncAction::Finish(Ok(()))));
    assert!(run.is_done());
    assert_eq!(st.last_sync_hash, Some(bh(1)));
    assert!(!st.pending_sync);
}

#[test]
fn synced_state_finishes_at_once() {
    let (mut run, _) = SyncRun::start();
    let mut st = SyncState::new();
    st.last_sync_hash = Some(bh(1));
    let mut q = FilterQueue::new();
    let a = step(&mut run, &mut st, &mut q, SyncEvent::Tip(bh(1)));
    assert!(matches!(a, SyncAction::Finish(Ok(()))));
}

#[test]
fn queued_registration_forces_a_search_at_the_same_tip() {
    let (mut run, _) = SyncRun::start();
    let mut st = SyncState::new();
    st.last_sync_hash = Some(bh(1));
    let mut q = FilterQueue::new();
    q.register_tx(txid(5));
    match step(&mut run, &mut st, &mut q, SyncEvent::Tip(bh(1))) {
        SyncAction::FetchTransaction(t) => assert_eq!(t, txid(5)),
        _ => panic!("expected FetchTransaction"),
    }
    assert!(q.transactions.is_empty());
    assert!(st.watched_transactions.contains(&txid(5)));
    assert!(st.pending_sync);
}

#[test]
fn registration_interrupted_by_a_tip_change_owes_a_retry() {
    let (mut run, _) = SyncRun::start();
    let mut st = SyncState::new();
    st.last_sync_hash = Some(bh(2));
    let mut q = FilterQueue::new();
    q.register_tx(txid(5));
    assert!(matches!(step(&mut run, &mut st, &mut q, SyncEvent::Tip(bh(1))), SyncAction::CollectRelevant));
    assert!(st.pending_sync);
    assert!(matches!(step(&mut run, &mut st, &mut q, SyncEvent::Relevant(vec![])), SyncAction::FetchTip));
    // the best block hash went back to the synced one: the transaction is still looked up
    match step(&mut run, &mut st, &mut q, SyncEvent::Tip(bh(2))) {
        SyncAction::FetchTransaction(t) => assert_eq!(t, txid(5)),
        _ => panic!("expected FetchTransaction"),
    }
    assert!(st.pending_sync);
}

#[test]
fn failed_tip_fetch_changes_nothing() {
    let (mut run, _) = SyncRun::start();
    let mut st = SyncState::new();
    let mut q = FilterQueue::new();
    let a = step(&mut run, &mut st, &mut q, SyncEvent::RpcFailed);
    assert!(matches!(a, SyncAction::Finish(Err(TxSyncError::Failed))));
    assert!(!st.pending_sync);
}

#[test]
fn failed_block_status_owes_a_retry() {
    let (mut run, _) = SyncRun::start();
    let mut st = SyncState::new();
    let mut q = FilterQueue::new();
    step(&mut run, &mut st, &mut q, SyncEvent::Tip(bh(1)));
    match step(&mut run, &mut st, &mut q, SyncEvent::Relevant(vec![(txid(1), bh(7))])) {
        SyncAction::FetchBlockInfo(b) => assert_eq!(b, bh(7)),
        _ => panic!("expected FetchBlockInfo"),
    }
    let a = step(&mut run, &mut st, &mut q, SyncEvent::RpcFailed);
    assert!(matches!(a, SyncAction::Finish(Err(TxSyncError::Failed))));
    assert!(st.pending_sync);
}

#[test]
fn best_block_missing_from_tips_owes_a_retry() {
    let (mut run, _) = SyncRun::start();
    let mut st = SyncState::new();
    let mut q = FilterQueue::new();
    step(&mut run, &mut st, &mut q, SyncEvent::Tip(bh(1)));
    step(&mut run, &mut st, &mut q, SyncEvent::Relevant(vec![]));
    step(&mut run, &mut st, &mut q, SyncEvent::Tip(bh(1)));
    step(&mut run, &mut st, &mut q, SyncEvent::Notified);
    let a = step(&mut run, &mut st, &mut q, SyncEvent::BestBlock { header: header(0), tips: vec![tip(bh(2), 1, TipStatus::Active)] });
    assert!(matches!(a, SyncAction::Finish(Err(TxSyncError::Failed))));
    assert!(st.pending_sync);
}

#[test]
fn inactive_best_block_is_not_announced() {
    let (mut run, _) = SyncRun::start();
    let mut st = SyncState::new();
    let mut q = FilterQueue::new();
    step(&mut run, &mut st, &mut q, SyncEvent::Tip(bh(1)));
    step(&mut run, &mut st, &mut q, SyncEvent::Relevant(vec![]));
    step(&mut run, &mut st, &mut q, SyncEvent::Tip(bh(1)));
    step(&mut run, &mut st, &mut q, SyncEvent::Notified);
    let a = step(&mut run, &mut st, &mut q, SyncEvent::BestBlock { header: header(0), tips: vec![tip(bh(1), 1, TipStatus::ValidFork)] });
    match a {
        SyncAction::FetchBlock(b) => assert_eq!(b, bh(1)),
        _ => panic!("expected FetchBlock"),
    }
}

#[test]
fn only_transactions_out_of_the_best_chain_are_unconfirmed() {
    let (mut run, _) = SyncRun::start();
    let mut st = SyncState::new();
    let mut q = FilterQueue::new();
    step(&mut run, &mut st, &mut q, SyncEvent::Tip(bh(1)));
    let a = step(
        &mut run,
        &mut st,
        &mut q,
        SyncEvent::Relevant(vec![(txid(1), bh(7)), (txid(2), bh(8)), (txid(1), bh(7))]),
    );
    match a {
        SyncAction::FetchBlockInfo(b) => assert_eq!(b, bh(7)),
        _ => panic!("expected FetchBlockInfo"),
    }
    // the block of txid(1) is deep in the best chain, below its tip
    match step(&mut run, &mut st, &mut q, info(5, 12, 6)) {
        SyncAction::FetchBlockInfo(b) => assert_eq!(b, bh(8)),
        _ => panic!("expected FetchBlockInfo"),
    }
    // the block of txid(2) left the best chain
    let a = step(&mut run, &mut st, &mut q, info(5, -1, 6));
    assert!(matches!(a, SyncAction::FetchTip));
    match step(&mut run, &mut st, &mut q, SyncEvent::Tip(bh(1))) {
        SyncAction::NotifyUnconfirmed(v) => assert_eq!(v, vec![txid(2)]),
        _ => panic!("expected NotifyUnconfirmed"),
    }
    assert!(st.watched_transactions.contains(&txid(2)));
    assert!(!st.watched_transactions.contains(&txid(1)));
}

#[test]
fn tip_change_restarts_the_round() {
    let (mut run, _) = SyncRun::start();
    let mut st = SyncState::new();
    let mut q = FilterQueue::new();
    step(&mut run, &mut st, &mut q, SyncEvent::Tip(bh(1)));
    step(&mut run, &mut st, &mut q, SyncEvent::Relevant(vec![]));
    let a = step(&mut run, &mut st, &mut q, SyncEvent::Tip(bh(2)));
    assert!(matches!(a, SyncAction::CollectRelevant));
    assert_eq!(st.last_sync_hash, None);
    step(&mut run, &mut st, &mut q, SyncEvent::Relevant(vec![]));
    match step(&mut run, &mut st, &mut q, SyncEvent::Tip(bh(2))) {
        SyncAction::NotifyUnconfirmed(_) => {},
        _ => panic!("expected NotifyUnconfirmed"),
    }
    match step(&mut run, &mut st, &mut q, SyncEvent::Notified) {
        SyncAction::FetchBestBlock(b) => assert_eq!(b, bh(2)),
        _ => panic!("expected FetchBestBlock"),
    }
}

#[test]
fn watched_transaction_found_confirmed() {
    let (mut run, _) = SyncRun::start();
    let mut st = SyncState::new();
    let mut q = FilterQueue::new();
    q.register_tx(txid(5));
    q.register_output(op(6, 0));
    match run_to_scan(&mut run, &mut st, &mut q, bh(1)) {
        SyncAction::FetchTransaction(t) => assert_eq!(t, txid(5)),
        _ => panic!("expected FetchTransaction"),
    }
    match step(&mut run, &mut st, &mut q, SyncEvent::Transaction { block_hash: Some(bh(9)) }) {
        SyncAction::FetchBlock(b) => assert_eq!(b, bh(9)),
        _ => panic!("expected FetchBlock"),
    }
    let a = step(&mut run, &mut st, &mut q, block(3, 40, 8, vec![bt(4, vec![]), bt(5, vec![op(6, 0)])]));
    match a {
        SyncAction::FetchBlock(b) => assert_eq!(b, bh(1)),
        _ => panic!("expected FetchBlock"),
    }
    let a = step(&mut run, &mut st, &mut q, block(4, 42, 9, vec![bt(2, vec![])]));
    assert!(matches!(a, SyncAction::FetchTip));
    match step(&mut run, &mut st, &mut q, SyncEvent::Tip(bh(1))) {
        SyncAction::NotifyConfirmed(v) => {
            assert_eq!(v.len(), 1);
            assert_eq!(v[0].txid, txid(5));
            assert_eq!(v[0].block_height, 40);
            assert_eq!(v[0].pos, 1);
            assert_eq!(v[0].block_header.nonce, 3);
        },
        _ => panic!("expected NotifyConfirmed"),
    }
    assert!(!st.watched_transactions.contains(&txid(5)));
    assert!(!st.watched_outputs.contains(&op(6, 0)));
    let a = step(&mut run, &mut st, &mut q, SyncEvent::Notified);
    assert!(matches!(a, SyncAction::Finish(Ok(()))));
    assert_eq!(st.last_sync_hash, Some(bh(1)));
}

#[test]
fn spend_of_watched_output_in_best_block_is_reported() {
    let (mut run, _) = SyncRun::start();
    let mut st = SyncState::new();
    let mut q = FilterQueue::new();
    q.register_output(op(6, 0));
    match run_to_scan(&mut run, &mut st, &mut q, bh(1)) {
        SyncAction::FetchBlock(b) => assert_eq!(b, bh(1)),
        _ => panic!("expected FetchBlock"),
    }
    let a = step(&mut run, &mut st, &mut q, block(5, 42, 0, vec![bt(7, vec![]), bt(8, vec![op(6, 0)])]));
    assert!(matches!(a, SyncAction::FetchTip));
    match step(&mut run, &mut st, &mut q, SyncEvent::Tip(bh(1))) {
        SyncAction::NotifyConfirmed(v) => {
            assert_eq!(v.len(), 1);
            assert_eq!(v[0].txid, txid(8));
            assert_eq!(v[0].pos, 1);
            assert_eq!(v[0].block_height, 42);
            assert_eq!(v[0].block_header.nonce, 5);
        },
        _ => panic!("expected NotifyConfirmed"),
    }
    assert!(!st.watched_outputs.contains(&op(6, 0)));
    assert!(matches!(step(&mut run, &mut st, &mut q, SyncEvent::Notified), SyncAction::Finish(Ok(()))));
}

#[test]
fn spends_are_searched_down_to_the_last_synced_block() {
    let (mut run, _) = SyncRun::start();
    let mut st = SyncState::new();
    st.last_sync_hash = Some(bh(1));
    st.watched_outputs.insert(op(6, 0));
    let mut q = FilterQueue::new();
    match run_to_scan_at(&mut run, &mut st, &mut q, bh(3), 12) {
        SyncAction::FetchBlockInfo(b) => assert_eq!(b, bh(1)),
        _ => panic!("expected FetchBlockInfo"),
    }
    match step(&mut run, &mut st, &mut q, info(10, 3, 0)) {
        SyncAction::FetchBlock(b) => assert_eq!(b, bh(3)),
        _ => panic!("expected FetchBlock"),
    }
    match step(&mut run, &mut st, &mut q, block(0, 12, 2, vec![bt(9, vec![])])) {
        SyncAction::FetchBlock(b) => assert_eq!(b, bh(2)),
        _ => panic!("expected FetchBlock"),
    }
    // height 11 is the last above the synced block at 10
    let a = step(&mut run, &mut st, &mut q, block(7, 11, 1, vec![bt(8, vec![op(6, 0)])]));
    assert!(matches!(a, SyncAction::FetchTip));
    match step(&mut run, &mut st, &mut q, SyncEvent::Tip(bh(3))) {
        SyncAction::NotifyConfirmed(v) => {
            assert_eq!(v.len(), 1);
            assert_eq!(v[0].txid, txid(8));
            assert_eq!(v[0].block_height, 11);
            assert_eq!(v[0].pos, 0);
            assert_eq!(v[0].block_header.nonce, 7);
        },
        _ => panic!("expected NotifyConfirmed"),
    }
    assert!(st.watched_outputs.is_empty());
}

#[test]
fn reorganised_synced_block_moves_the_search_down() {
    let (mut run, _) = SyncRun::start();
    let mut st = SyncState::new();
    st.last_sync_hash = Some(bh(1));
    let mut q = FilterQueue::new();
    run_to_scan_at(&mut run, &mut st, &mut q, bh(3), 12);
    // the synced block left the best chain: its parent is asked for
    match step(&mut run, &mut st, &mut q, info(10, -1, 0)) {
        SyncAction::FetchBlockInfo(b) => assert_eq!(b, bh(0)),
        _ => panic!("expected FetchBlockInfo"),
    }
    match step(&mut run, &mut st, &mut q, info(9, 4, 15)) {
        SyncAction::FetchBlock(b) => assert_eq!(b, bh(3)),
        _ => panic!("expected FetchBlock"),
    }
    match step(&mut run, &mut st, &mut q, block(0, 12, 2, vec![])) {
        SyncAction::FetchBlock(b) => assert_eq!(b, bh(2)),
        _ => panic!("expected FetchBlock"),
    }
    match step(&mut run, &mut st, &mut q, block(0, 11, 14, vec![])) {
        SyncAction::FetchBlock(b) => assert_eq!(b, bh(14)),
        _ => panic!("expected FetchBlock"),
    }
    let a = step(&mut run, &mut st, &mut q, block(0, 10, 15, vec![]));
    assert!(matches!(a, SyncAction::FetchTip));
}

#[test]
fn unconfirmed_watched_transaction_is_skipped() {
    let (mut run, _) = SyncRun::start();
    let mut st = SyncState::new();
    let mut q = FilterQueue::new();
    q.register_tx(txid(5));
    run_to_scan(&mut run, &mut st, &mut q, bh(1));
    let a = step(&mut run, &mut st, &mut q, SyncEvent::Transaction { block_hash: None });
    assert!(matches!(a, SyncAction::FetchBlock(_)));
    let a = step(&mut run, &mut st, &mut q, block(0, 42, 0, vec![]));
    assert!(matches!(a, SyncAction::FetchTip));
    match step(&mut run, &mut st, &mut q, SyncEvent::Tip(bh(1))) {
        SyncAction::NotifyConfirmed(v) => assert!(v.is_empty()),
        _ => panic!("expected NotifyConfirmed"),
    }
    assert!(st.watched_transactions.contains(&txid(5)));
}

#[test]
fn transaction_missing_from_its_block_restarts() {
    let (mut run, _) = SyncRun::start();
    let mut st = SyncState::new();
    let mut q = FilterQueue::new();
    q.register_tx(txid(5));
    run_to_scan(&mut run, &mut st, &mut q, bh(1));
    step(&mut run, &mut st, &mut q, SyncEvent::Transaction { block_hash: Some(bh(9)) });
    let a = step(&mut run, &mut st, &mut q, block(0, 5, 8, vec![bt(4, vec![])]));
    assert!(matches!(a, SyncAction::CollectRelevant));
    assert!(st.pending_sync);
}

#[test]
fn lookup_failure_owes_a_retry() {
    let (mut run, _) = SyncRun::start();
    let mut st = SyncState::new();
    let mut q = FilterQueue::new();
    q.register_tx(txid(5));
    run_to_scan(&mut run, &mut st, &mut q, bh(1));
    let a = step(&mut run, &mut st, &mut q, SyncEvent::RpcFailed);
    assert!(matches!(a, SyncAction::Finish(Err(TxSyncError::Failed))));
    assert!(st.pending_sync);
    assert!(st.watched_transactions.contains(&txid(5)));
}

#[test]
fn spend_search_failure_owes_a_retry() {
    let (mut run, _) = SyncRun::start();
    let mut st = SyncState::new();
    let mut q = FilterQueue::new();
    q.register_output(op(6, 0));
    run_to_scan(&mut run, &mut st, &mut q, bh(1));
    let a = step(&mut run, &mut st, &mut q, SyncEvent::RpcFailed);
    assert!(matches!(a, SyncAction::Finish(Err(TxSyncError::Failed))));
    assert!(st.pending_sync);
    assert!(st.watched_outputs.contains(&op(6, 0)));
}

#[test]
fn pending_retry_forces_a_search_and_completion_clears_it() {
    let (mut run, _) = SyncRun::start();
    let mut st = SyncState::new();
    st.last_sync_hash = Some(bh(1));
    st.pending_sync = true;
    let mut q = FilterQueue::new();
    let a = step(&mut run, &mut st, &mut q, SyncEvent::Tip(bh(1)));
    assert!(matches!(a, SyncAction::FetchTip));
    match step(&mut run, &mut st, &mut q, SyncEvent::Tip(bh(1))) {
        SyncAction::NotifyConfirmed(v) => assert!(v.is_empty()),
        _ => panic!("expected NotifyConfirmed"),
    }
    let a = step(&mut run, &mut st, &mut q, SyncEvent::Notified);
    assert!(matches!(a, SyncAction::Finish(Ok(()))));
    assert!(!st.pending_sync);
}

#[test]
fn unexpected_outcome_ends_the_run() {
    let (mut run, _) = SyncRun::start();
    let mut st = SyncState::new();
    let mut q = FilterQueue::new();
    let a = step(&mut run, &mut st, &mut q, SyncEvent::Notified);
    assert!(matches!(a, SyncAction::Finish(Err(TxSyncError::Failed))));
    assert!(run.is_done());
    let a = step(&mut run, &mut st, &mut q, SyncEvent::Tip(bh(1)));
    assert!(matches!(a, SyncAction::Finish(Err(TxSyncError::Failed))));
    assert!(!st.pending_sync);
}

#[test]
fn failed_recheck_owes_a_retry_and_the_retry_searches() {
    let (mut run, _) = SyncRun::start();
    let mut st = SyncState::new();
    st.last_sync_hash = Some(bh(1));
    let mut q = FilterQueue::new();
    q.register_tx(txid(5));
    match step(&mut run, &mut st, &mut q, SyncEvent::Tip(bh(1))) {
        SyncAction::FetchTransaction(t) => assert_eq!(t, txid(5)),
        _ => panic!("expected FetchTransaction"),
    }
    let a = step(&mut run, &mut st, &mut q, SyncEvent::Transaction { block_hash: None });
    assert!(matches!(a, SyncAction::FetchTip));
    let a = step(&mut run, &mut st, &mut q, SyncEvent::RpcFailed);
    assert!(matches!(a, SyncAction::Finish(Err(TxSyncError::Failed))));
    assert!(st.pending_sync);
    // the retry at the same tip searches again instead of finishing at once
    let (mut retry, _) = SyncRun::start();
    match step(&mut retry, &mut st, &mut q, SyncEvent::Tip(bh(1))) {
        SyncAction::FetchTransaction(t) => assert_eq!(t, txid(5)),
        _ => panic!("expected FetchTransaction"),
    }
}

#[test]
fn failed_unconfirmed_recheck_owes_a_retry() {
    let (mut run, _) = SyncRun::start();
    let mut st = SyncState::new();
    let mut q = FilterQueue::new();
    step(&mut run, &mut st, &mut q, SyncEvent::Tip(bh(1)));
    step(&mut run, &mut st, &mut q, SyncEvent::Relevant(vec![]));
    let a = step(&mut run, &mut st, &mut q, SyncEvent::RpcFailed);
    assert!(matches!(a, SyncAction::Finish(Err(TxSyncError::Failed))));
    assert!(st.pending_sync);
}

#[test]
fn node_calls_of_a_round_come_in_order() {
    let (mut run, mut a) = SyncRun::start();
    let mut st = SyncState::new();
    let mut q = FilterQueue::new();
    q.register_tx(txid(5));
    let mut calls: Vec<&str> = Vec::new();
    let tips = vec![tip(bh(1), 9, TipStatus::Active), tip(bh(7), 8, TipStatus::ValidFork)];
    loop {
        let ev = match a {
            SyncAction::FetchTip => SyncEvent::Tip(bh(1)),
            SyncAction::CollectRelevant => {
                calls.push("relevant");
                SyncEvent::Relevant(vec![(txid(3), bh(7))])
            },
            SyncAction::FetchBlockInfo(_) => SyncEvent::BlockInfo { height: 8, confirmations: -1, prev: None },
            SyncAction::NotifyUnconfirmed(v) => {
                assert_eq!(v, vec![txid(3)]);
                calls.push("unconfirmed");
                SyncEvent::Notified
            },
            SyncAction::FetchBestBlock(_) => SyncEvent::BestBlock { header: header(0), tips: tips.clone() },
            SyncAction::NotifyBestBlock(_, h) => {
                assert_eq!(h, 9);
                calls.push("best");
                SyncEvent::Notified
            },
            SyncAction::FetchTransaction(t) => SyncEvent::Transaction {
                block_hash: if t == txid(5) { Some(bh(1)) } else { None },
            },
            SyncAction::FetchBlock(_) => block(0, 9, 0, vec![bt(5, vec![])]),
            SyncAction::NotifyConfirmed(v) => {
                let ids: Vec<Txid> = v.iter().map(|c| c.txid).collect();
                calls.push(if ids.contains(&txid(5)) { "confirmed 5" } else { "confirmed" });
                SyncEvent::Notified
            },
            SyncAction::Finish(r) => {
                assert_eq!(r, Ok(()));
                break;
            },
        };
        a = step(&mut run, &mut st, &mut q, ev);
    }
    assert_eq!(calls, vec!["relevant", "unconfirmed", "best", "confirmed 5"]);
    assert!(!st.watched_transactions.contains(&txid(5)));
    assert!(st.watched_transactions.contains(&txid(3)));
}
