//! Confirmed transactions: their order and what they change in the watch sets.
use vstd::prelude::*;
use vstd::multiset::Multiset;
use crate::keyset::{lemma_push_to_set, KeySet};
use crate::state::SyncState;
use crate::chain::first_index_of;
use crate::types::{Key, OutPoint, Txid};

verus! {

broadcast use vstd::seq_lib::group_to_multiset_ensures;

/// Declares `bitcoin::Transaction`, carried through to the notification of a confirmation.
#[verifier::external_type_specification]
#[verifier::external_body]
pub struct ExTransaction(bitcoin::Transaction);

/// Declares `bitcoin::BlockHeader`, carried through to the notifications of the node.
#[verifier::external_type_specification]
#[verifier::external_body]
pub struct ExBlockHeader(bitcoin::BlockHeader);

/// A transaction found confirmed in a block of the best chain.
pub struct ConfirmedTx {
    /// The transaction.
    pub tx: bitcoin::Transaction,
    /// The header of the block that confirms it.
    pub block_header: bitcoin::BlockHeader,
    /// The height of that block.
    pub block_height: u32,
    /// The position of the transaction in that block.
    pub pos: usize,
    /// The identifier of the transaction.
    pub txid: Txid,
    /// The outputs that the transaction's inputs spend.
    pub spent: Vec<OutPoint>,
}

/// A transaction of a block: the transaction, its identifier, and the outputs that its
/// inputs spend.
pub struct BlockTx {
    pub tx: bitcoin::Transaction,
    pub txid: Txid,
    pub spent: Vec<OutPoint>,
}

/// The confirmed transaction that the transaction at position `pos` of a block yields.
pub open spec fn confirmed_of_block(b: BlockTx, header: bitcoin::BlockHeader, height: u32, pos: usize) -> ConfirmedTx {
    ConfirmedTx { tx: b.tx, block_header: header, block_height: height, pos, txid: b.txid, spent: b.spent }
}

/// The transaction spends one of the `watched` outputs.
pub open spec fn spends_watched(b: BlockTx, watched: Set<OutPoint>) -> bool {
    exists|j: int| 0 <= j < b.spent@.len() && watched.contains(#[trigger] b.spent@[j])
}

/// The transactions of a block, from position `lo` on, that spend one of the `watched`
/// outputs, as confirmed transactions of that block.
pub open spec fn spends_in_block(
    txs: Seq<BlockTx>,
    header: bitcoin::BlockHeader,
    height: u32,
    watched: Set<OutPoint>,
    lo: int,
) -> Seq<ConfirmedTx>
    decreases txs.len() - lo,
{
    if lo < 0 || lo >= txs.len() {
        Seq::empty()
    } else {
        let rest = spends_in_block(txs, header, height, watched, lo + 1);
        if spends_watched(txs[lo], watched) {
            seq![confirmed_of_block(txs[lo], header, height, lo as usize)] + rest
        } else {
            rest
        }
    }
}

/// Whether the transaction spends one of the watched outputs.
fn spends_any(b: &BlockTx, watched: &KeySet<OutPoint>) -> (r: bool)
    ensures
        r == spends_watched(*b, watched@),
        r == exists|j: int| 0 <= j < b.spent@.len() && watched@.contains(#[trigger] b.spent@[j]),
{
    let mut j: usize = 0;
    while j < b.spent.len()
        invariant
            0 <= j <= b.spent@.len(),
            forall|k: int| 0 <= k < j ==> !watched@.contains(#[trigger] b.spent@[k]),
        decreases b.spent@.len() - j,
    {
        if watched.contains(&b.spent[j]) {
            return true;
        }
        j += 1;
    }
    false
}

/// Adds to `found` the transactions of a block that spend one of the `watched` outputs.
pub fn collect_spends(
    txs: Vec<BlockTx>,
    header: bitcoin::BlockHeader,
    height: u32,
    watched: &KeySet<OutPoint>,
    found: &mut Vec<ConfirmedTx>,
)
    ensures
        final(found)@.to_multiset() == old(found)@.to_multiset().add(
            spends_in_block(txs@, header, height, watched@, 0).to_multiset(),
        ),
{
    let ghost all = txs@;
    let mut rest = txs;
    while rest.len() > 0
        invariant
            rest@ == all.take(rest@.len() as int),
            rest@.len() <= all.len(),
            found@.to_multiset() == old(found)@.to_multiset().add(
                spends_in_block(all, header, height, watched@, rest@.len() as int).to_multiset(),
            ),
        decreases rest@.len(),
    {
        let ghost k = rest@.len() as int;
        let pos = rest.len() - 1;
        let b = rest.pop().unwrap();
        proof {
            assert(b == all[k - 1]);
            assert(rest@ =~= all.take(k - 1));
        }
        let ghost tail = spends_in_block(all, header, height, watched@, k);
        if spends_any(&b, watched) {
            found.push(
                ConfirmedTx { tx: b.tx, block_header: header, block_height: height, pos, txid: b.txid, spent: b.spent },
            );
            proof {
                let c = confirmed_of_block(all[k - 1], header, height, pos);
                assert(spends_in_block(all, header, height, watched@, k - 1) == seq![c] + tail);
                assert((seq![c] + tail).to_multiset() =~= tail.to_multiset().insert(c)) by {
                    assert(seq![c] + tail =~= tail.insert(0, c));
                }
            }
        } else {
            proof {
                assert(spends_in_block(all, header, height, watched@, k - 1) == tail);
            }
        }
    }
    proof {
        assert(spends_in_block(all, header, height, watched@, 0) == spends_in_block(all, header, height, watched@, rest@.len() as int));
    }
}

/// The identifiers of the transactions of a block, in order.
pub open spec fn block_txids(txs: Seq<BlockTx>) -> Seq<Txid> {
    txs.map_values(|b: BlockTx| b.txid)
}

/// The first position of transaction `t` in a block, if it is there.
pub fn position_of_tx(txs: &Vec<BlockTx>, t: &Txid) -> (r: Option<usize>)
    ensures
        match r {
            Some(i) => first_index_of(block_txids(txs@), *t, i as int),
            None => !block_txids(txs@).contains(*t),
        },
{
    let mut i: usize = 0;
    while i < txs.len()
        invariant
            0 <= i <= txs@.len(),
            forall|j: int| 0 <= j < i ==> block_txids(txs@)[j] != *t,
        decreases txs@.len() - i,
    {
        if txs[i].txid.same(t) {
            return Some(i);
        }
        i += 1;
    }
    None
}

/// `a` comes no later than `b`: first by block height, then by position in the block.
pub open spec fn confirmed_le(a: ConfirmedTx, b: ConfirmedTx) -> bool {
    a.block_height < b.block_height || (a.block_height == b.block_height && a.pos <= b.pos)
}

/// The transactions are ordered by block height, then by position in the block.
pub open spec fn confirmed_sorted(s: Seq<ConfirmedTx>) -> bool {
    forall|i: int, j: int| 0 <= i < j < s.len() ==> confirmed_le(s[i], s[j])
}

/// The identifiers of the transactions.
pub open spec fn confirmed_txids(s: Seq<ConfirmedTx>) -> Set<Txid> {
    Set::new(|t: Txid| exists|i: int| 0 <= i < s.len() && s[i].txid == t)
}

/// The outputs that the transactions spend.
pub open spec fn spent_outpoints(s: Seq<ConfirmedTx>) -> Set<OutPoint> {
    Set::new(
        |o: OutPoint|
            exists|i: int, j: int| 0 <= i < s.len() && 0 <= j < s[i].spent@.len() && s[i].spent@[j] == o,
    )
}

/// Whether `a` comes no later than `b`.
fn le_exec(a: &ConfirmedTx, b: &ConfirmedTx) -> (r: bool)
    ensures
        r == confirmed_le(*a, *b),
        r == (a.block_height < b.block_height || (a.block_height == b.block_height && a.pos <= b.pos)),
{
    a.block_height < b.block_height || (a.block_height == b.block_height && a.pos <= b.pos)
}

/// Orders the transactions by block height, then by position in the block.
pub fn sort_confirmed(txs: Vec<ConfirmedTx>) -> (sorted: Vec<ConfirmedTx>)
    ensures
        confirmed_sorted(sorted@),
        forall|i: int, j: int| 0 <= i < j < sorted@.len() ==> {
            ||| sorted@[i].block_height < sorted@[j].block_height
            ||| sorted@[i].block_height == sorted@[j].block_height && sorted@[i].pos <= sorted@[j].pos
        },
        sorted@.to_multiset() == txs@.to_multiset(),
{
    let mut rest = txs;
    let mut sorted: Vec<ConfirmedTx> = Vec::new();
    while rest.len() > 0
        invariant
            confirmed_sorted(sorted@),
            sorted@.to_multiset().add(rest@.to_multiset()) == txs@.to_multiset(),
        decreases rest@.len(),
    {
        let ghost rest0 = rest@;
        let x = rest.pop().unwrap();
        proof {
            assert(rest0 == rest@.push(x));
        }
        // the first position whose transaction comes strictly after `x`
        let mut p: usize = 0;
        while p < sorted.len() && le_exec(&sorted[p], &x)
            invariant
                0 <= p <= sorted@.len(),
                forall|k: int| 0 <= k < p ==> confirmed_le(#[trigger] sorted@[k], x),
            decreases sorted@.len() - p,
        {
            p += 1;
        }
        let ghost s0 = sorted@;
        sorted.insert(p, x);
        proof {
            assert(sorted@ == s0.insert(p as int, x));
            assert forall|i: int, j: int| 0 <= i < j < sorted@.len() implies confirmed_le(
                sorted@[i],
                sorted@[j],
            ) by {
                if j < p {
                    assert(sorted@[i] == s0[i] && sorted@[j] == s0[j]);
                } else if j == p {
                    assert(sorted@[i] == s0[i]);
                } else if i == p {
                    assert(sorted@[j] == s0[j - 1]);
                    if p < s0.len() {
                        assert(!confirmed_le(s0[p as int], x));
                        if j - 1 > p {
                            assert(confirmed_le(s0[p as int], s0[j - 1]));
                        }
                    }
                } else if i < p {
                    assert(sorted@[i] == s0[i] && sorted@[j] == s0[j - 1]);
                } else {
                    assert(sorted@[i] == s0[i - 1] && sorted@[j] == s0[j - 1]);
                }
            }
            assert(sorted@.to_multiset() =~= s0.to_multiset().insert(x));
            assert(rest0.to_multiset() =~= rest@.to_multiset().insert(x));
            assert(sorted@.to_multiset().add(rest@.to_multiset()) =~= txs@.to_multiset());
        }
    }
    proof {
        assert(rest@ =~= Seq::<ConfirmedTx>::empty());
        assert(rest@.to_multiset() =~= Multiset::<ConfirmedTx>::empty());
        assert(sorted@.to_multiset() =~= sorted@.to_multiset().add(rest@.to_multiset()));
        assert forall|i: int, j: int| 0 <= i < j < sorted@.len() implies {
            ||| sorted@[i].block_height < sorted@[j].block_height
            ||| sorted@[i].block_height == sorted@[j].block_height && sorted@[i].pos <= sorted@[j].pos
        } by {
            law_sorted_by_height_then_position(sorted@, i, j);
        }
    }
    sorted
}

/// Watches again the transactions that were unconfirmed by a reorganisation.
pub fn watch_unconfirmed(sync_state: &mut SyncState, unconfirmed: &Vec<Txid>)
    requires
        old(sync_state).wf(),
    ensures
        final(sync_state).wf(),
        final(sync_state).watched_transactions@
            == old(sync_state).watched_transactions@.union(unconfirmed@.to_set()),
        final(sync_state).watched_outputs@ == old(sync_state).watched_outputs@,
        final(sync_state).last_sync_hash == old(sync_state).last_sync_hash,
        final(sync_state).pending_sync == old(sync_state).pending_sync,
{
    let mut i: usize = 0;
    while i < unconfirmed.len()
        invariant
            0 <= i <= unconfirmed@.len(),
            sync_state.wf(),
            sync_state.watched_transactions@ == old(sync_state).watched_transactions@.union(
                unconfirmed@.take(i as int).to_set(),
            ),
            sync_state.watched_outputs@ == old(sync_state).watched_outputs@,
            sync_state.last_sync_hash == old(sync_state).last_sync_hash,
            sync_state.pending_sync == old(sync_state).pending_sync,
        decreases unconfirmed@.len() - i,
    {
        let t = unconfirmed[i];
        sync_state.watched_transactions.insert(t);
        proof {
            let s1 = unconfirmed@.take(i as int + 1);
            let s0 = unconfirmed@.take(i as int);
            assert(s1 == s0.push(t));
            lemma_push_to_set(s0, t);
            assert(sync_state.watched_transactions@ =~= old(sync_state).watched_transactions@.union(
                s1.to_set(),
            ));
        }
        i += 1;
    }
    assert(unconfirmed@.take(unconfirmed@.len() as int) =~= unconfirmed@);
}

/// Stops watching the confirmed transactions and the outputs that they spend.
pub fn unwatch_confirmed(sync_state: &mut SyncState, confirmed: &Vec<ConfirmedTx>)
    requires
        old(sync_state).wf(),
    ensures
        final(sync_state).wf(),
        final(sync_state).watched_transactions@
            == old(sync_state).watched_transactions@.difference(confirmed_txids(confirmed@)),
        final(sync_state).watched_outputs@
            == old(sync_state).watched_outputs@.difference(spent_outpoints(confirmed@)),
        final(sync_state).last_sync_hash == old(sync_state).last_sync_hash,
        final(sync_state).pending_sync == old(sync_state).pending_sync,
{
    let mut i: usize = 0;
    while i < confirmed.len()
        invariant
            0 <= i <= confirmed@.len(),
            sync_state.wf(),
            sync_state.watched_transactions@ == old(sync_state).watched_transactions@.difference(
                confirmed_txids(confirmed@.take(i as int)),
            ),
            sync_state.watched_outputs@ == old(sync_state).watched_outputs@.difference(
                spent_outpoints(confirmed@.take(i as int)),
            ),
            sync_state.last_sync_hash == old(sync_state).last_sync_hash,
            sync_state.pending_sync == old(sync_state).pending_sync,
        decreases confirmed@.len() - i,
    {
        let ctx = &confirmed[i];
        let ghost s0 = confirmed@.take(i as int);
        let ghost s1 = confirmed@.take(i as int + 1);
        proof {
            assert(s1 == s0.push(*ctx));
        }
        sync_state.watched_transactions.remove(&ctx.txid);
        proof {
            assert(confirmed_txids(s1) =~= confirmed_txids(s0).insert(ctx.txid)) by {
                assert forall|t: Txid| confirmed_txids(s1).contains(t) implies confirmed_txids(s0).insert(
                    ctx.txid,
                ).contains(t) by {
                    let j = choose|j: int| 0 <= j < s1.len() && s1[j].txid == t;
                    if j < s0.len() {
                        assert(s0[j].txid == t);
                    }
                }
                assert forall|t: Txid| confirmed_txids(s0).insert(ctx.txid).contains(t) implies confirmed_txids(
                    s1,
                ).contains(t) by {
                    if t == ctx.txid {
                        assert(s1[i as int].txid == t);
                    } else {
                        let j = choose|j: int| 0 <= j < s0.len() && s0[j].txid == t;
                        assert(s1[j].txid == t);
                    }
                }
            }
            assert(sync_state.watched_transactions@ =~= old(sync_state).watched_transactions@.difference(
                confirmed_txids(s1),
            ));
        }
        let mut k: usize = 0;
        while k < ctx.spent.len()
            invariant
                0 <= k <= ctx.spent@.len(),
                ctx == &confirmed@[i as int],
                0 <= i < confirmed@.len(),
                sync_state.wf(),
                sync_state.watched_transactions@ == old(sync_state).watched_transactions@.difference(
                    confirmed_txids(s1),
                ),
                sync_state.watched_outputs@ == old(sync_state).watched_outputs@.difference(
                    spent_outpoints(s0),
                ).difference(ctx.spent@.take(k as int).to_set()),
                sync_state.last_sync_hash == old(sync_state).last_sync_hash,
                sync_state.pending_sync == old(sync_state).pending_sync,
            decreases ctx.spent@.len() - k,
        {
            let o = ctx.spent[k];
            sync_state.watched_outputs.remove(&o);
            proof {
                let a0 = ctx.spent@.take(k as int);
                let a1 = ctx.spent@.take(k as int + 1);
                assert(a1 == a0.push(o));
                lemma_push_to_set(a0, o);
                assert(sync_state.watched_outputs@ =~= old(sync_state).watched_outputs@.difference(
                    spent_outpoints(s0),
                ).difference(a1.to_set()));
            }
            k += 1;
        }
        proof {
            assert(ctx.spent@.take(ctx.spent@.len() as int) =~= ctx.spent@);
            assert(spent_outpoints(s1) =~= spent_outpoints(s0).union(ctx.spent@.to_set())) by {
                assert forall|o: OutPoint| spent_outpoints(s1).contains(o) implies spent_outpoints(s0).union(
                    ctx.spent@.to_set(),
                ).contains(o) by {
                    let (a, b) = choose|a: int, b: int|
                        0 <= a < s1.len() && 0 <= b < s1[a].spent@.len() && s1[a].spent@[b] == o;
                    if a < s0.len() {
                        assert(s0[a].spent@[b] == o);
                    } else {
                        assert(ctx.spent@[b] == o);
                    }
                }
                assert forall|o: OutPoint| spent_outpoints(s0).union(ctx.spent@.to_set()).contains(o) implies spent_outpoints(
                    s1,
                ).contains(o) by {
                    if spent_outpoints(s0).contains(o) {
                        let (a, b) = choose|a: int, b: int|
                            0 <= a < s0.len() && 0 <= b < s0[a].spent@.len() && s0[a].spent@[b] == o;
                        assert(s1[a].spent@[b] == o);
                    } else {
                        let b = choose|b: int| 0 <= b < ctx.spent@.len() && ctx.spent@[b] == o;
                        assert(s1[i as int].spent@[b] == o);
                    }
                }
            }
            assert(sync_state.watched_outputs@ =~= old(sync_state).watched_outputs@.difference(
                spent_outpoints(s1),
            ));
        }
        i += 1;
    }
    assert(confirmed@.take(confirmed@.len() as int) =~= confirmed@);
}

/// Transactions in order come by block height, and within a block by position: of two
/// of them, the earlier is in a lower block, or in the same block at a position no
/// later.
pub proof fn law_sorted_by_height_then_position(s: Seq<ConfirmedTx>, i: int, j: int)
    requires
        confirmed_sorted(s),
        0 <= i < j < s.len(),
    ensures
        s[i].block_height < s[j].block_height || (s[i].block_height == s[j].block_height
            && s[i].pos <= s[j].pos),
{
    assert(confirmed_le(s[i], s[j]));
}

/// Every transaction of a block with any input, at any index, among the `watched`
/// outputs is collected, with the block's header and height and its position.
pub proof fn law_block_spend_collected(
    txs: Seq<BlockTx>,
    header: bitcoin::BlockHeader,
    height: u32,
    watched: Set<OutPoint>,
    p: int,
    k: int,
)
    requires
        0 <= p < txs.len(),
        0 <= k < txs[p].spent@.len(),
        watched.contains(txs[p].spent@[k]),
    ensures
        spends_in_block(txs, header, height, watched, 0).contains(
            ConfirmedTx {
                tx: txs[p].tx,
                block_header: header,
                block_height: height,
                pos: p as usize,
                txid: txs[p].txid,
                spent: txs[p].spent,
            },
        ),
{
    lemma_spend_collected_from(txs, header, height, watched, 0, p, k);
}

proof fn lemma_spend_collected_from(
    txs: Seq<BlockTx>,
    header: bitcoin::BlockHeader,
    height: u32,
    watched: Set<OutPoint>,
    lo: int,
    p: int,
    k: int,
)
    requires
        0 <= lo <= p < txs.len(),
        0 <= k < txs[p].spent@.len(),
        watched.contains(txs[p].spent@[k]),
    ensures
        spends_in_block(txs, header, height, watched, lo).contains(
            ConfirmedTx {
                tx: txs[p].tx,
                block_header: header,
                block_height: height,
                pos: p as usize,
                txid: txs[p].txid,
                spent: txs[p].spent,
            },
        ),
    decreases p - lo,
{
    let c = ConfirmedTx {
        tx: txs[p].tx,
        block_header: header,
        block_height: height,
        pos: p as usize,
        txid: txs[p].txid,
        spent: txs[p].spent,
    };
    let rest = spends_in_block(txs, header, height, watched, lo + 1);
    if lo == p {
        assert(spends_watched(txs[p], watched));
        let out = seq![c] + rest;
        assert(out[0] == c);
    } else {
        lemma_spend_collected_from(txs, header, height, watched, lo + 1, p, k);
        let i = choose|i: int| 0 <= i < rest.len() && rest[i] == c;
        if spends_watched(txs[lo], watched) {
            let out = seq![confirmed_of_block(txs[lo], header, height, lo as usize)] + rest;
            assert(out[i + 1] == c);
        }
    }
}

/// Every transaction collected from a block is one of its transactions, at its own
/// position, with the block's header and height, and it has an input among the
/// `watched` outputs.
pub proof fn law_block_spend_only_watched(
    txs: Seq<BlockTx>,
    header: bitcoin::BlockHeader,
    height: u32,
    watched: Set<OutPoint>,
    c: ConfirmedTx,
)
    requires
        spends_in_block(txs, header, height, watched, 0).contains(c),
    ensures
        exists|p: int, k: int|
            0 <= p < txs.len() && 0 <= k < txs[p].spent@.len() && watched.contains(#[trigger] txs[p].spent@[k])
                && c == (ConfirmedTx {
                tx: txs[p].tx,
                block_header: header,
                block_height: height,
                pos: p as usize,
                txid: txs[p].txid,
                spent: txs[p].spent,
            }),
{
    lemma_spend_only_watched_from(txs, header, height, watched, 0, c);
}

proof fn lemma_spend_only_watched_from(
    txs: Seq<BlockTx>,
    header: bitcoin::BlockHeader,
    height: u32,
    watched: Set<OutPoint>,
    lo: int,
    c: ConfirmedTx,
)
    requires
        spends_in_block(txs, header, height, watched, lo).contains(c),
    ensures
        exists|p: int, k: int|
            0 <= p < txs.len() && 0 <= k < txs[p].spent@.len() && watched.contains(#[trigger] txs[p].spent@[k])
                && c == (ConfirmedTx {
                tx: txs[p].tx,
                block_header: header,
                block_height: height,
                pos: p as usize,
                txid: txs[p].txid,
                spent: txs[p].spent,
            }),
    decreases txs.len() - lo,
{
    if lo < 0 || lo >= txs.len() {
    } else {
        let rest = spends_in_block(txs, header, height, watched, lo + 1);
        if spends_watched(txs[lo], watched) {
            let d = confirmed_of_block(txs[lo], header, height, lo as usize);
            let out = seq![d] + rest;
            let i = choose|i: int| 0 <= i < out.len() && out[i] == c;
            if i == 0 {
                let k = choose|k: int| 0 <= k < txs[lo].spent@.len() && watched.contains(#[trigger] txs[lo].spent@[k]);
                assert(watched.contains(txs[lo].spent@[k]));
            } else {
                assert(rest[i - 1] == c);
                lemma_spend_only_watched_from(txs, header, height, watched, lo + 1, c);
            }
        } else {
            lemma_spend_only_watched_from(txs, header, height, watched, lo + 1, c);
        }
    }
}

} // verus!
