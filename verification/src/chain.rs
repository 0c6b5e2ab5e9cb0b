//! Decisions on chain data: the best block among the chain tips, positions, and the transactions to re-check.
use vstd::prelude::*;
use crate::error::InternalError;
use crate::keyset::lemma_push_to_set;
use crate::types::{BlockHash, ChainTip, Key, TipStatus, Txid};

verus! {

/// `i` is the first chain tip with hash `h`.
pub open spec fn first_tip_index(tips: Seq<ChainTip>, h: BlockHash, i: int) -> bool {
    &&& 0 <= i < tips.len()
    &&& tips[i].hash == h
    &&& forall|j: int| 0 <= j < i ==> tips[j].hash != h
}

/// Some chain tip has hash `h`.
pub open spec fn has_tip(tips: Seq<ChainTip>, h: BlockHash) -> bool {
    exists|i: int| 0 <= i < tips.len() && tips[i].hash == h
}

/// What the node learns of the new best block: an error if the tip is not among the
/// chain tips, its height (cut to 32 bits) if it is the active tip, nothing otherwise.
pub open spec fn best_block_outcome(tips: Seq<ChainTip>, h: BlockHash) -> Result<Option<u32>, InternalError> {
    if has_tip(tips, h) {
        let i = choose|i: int| first_tip_index(tips, h, i);
        if tips[i].status == TipStatus::Active {
            Ok(Some(tips[i].height as u32))
        } else {
            Ok(None)
        }
    } else {
        Err(InternalError::Failed)
    }
}

/// `i` is the first position of `t` in `s`.
pub open spec fn first_index_of(s: Seq<Txid>, t: Txid, i: int) -> bool {
    &&& 0 <= i < s.len()
    &&& s[i] == t
    &&& forall|j: int| 0 <= j < i ==> s[j] != t
}

proof fn lemma_first_tip_unique(tips: Seq<ChainTip>, h: BlockHash, i: int, k: int)
    requires
        first_tip_index(tips, h, i),
        first_tip_index(tips, h, k),
    ensures
        i == k,
{
    if i < k {
        assert(tips[i].hash != h);
    } else if k < i {
        assert(tips[k].hash != h);
    }
}

/// The position of the first chain tip with hash `h`, if there is one.
pub fn find_tip(tips: &Vec<ChainTip>, h: &BlockHash) -> (r: Option<usize>)
    ensures
        match r {
            Some(i) => first_tip_index(tips@, *h, i as int),
            None => !has_tip(tips@, *h),
        },
{
    let mut i: usize = 0;
    while i < tips.len()
        invariant
            0 <= i <= tips@.len(),
            forall|j: int| 0 <= j < i ==> tips@[j].hash != *h,
        decreases tips@.len() - i,
    {
        if tips[i].hash.same(h) {
            return Some(i);
        }
        i += 1;
    }
    None
}

/// What the node learns of the new best block with hash `tip`.
pub fn best_block_update(tips: &Vec<ChainTip>, tip: &BlockHash) -> (r: Result<Option<u32>, InternalError>)
    ensures
        r == best_block_outcome(tips@, *tip),
{
    match find_tip(tips, tip) {
        Some(i) => {
            proof {
                let c = choose|c: int| first_tip_index(tips@, *tip, c);
                lemma_first_tip_unique(tips@, *tip, i as int, c);
            }
            if tips[i].status == TipStatus::Active {
                Ok(Some(tips[i].height as u32))
            } else {
                Ok(None)
            }
        },
        None => Err(InternalError::Failed),
    }
}

/// The relevant transactions, each once, in the order of their first occurrence.
pub fn dedup_relevant(relevant: &Vec<(Txid, BlockHash)>) -> (out: Vec<(Txid, BlockHash)>)
    ensures
        out@.no_duplicates(),
        out@.to_set() == relevant@.to_set(),
        out@.len() == 0 <==> relevant@.len() == 0,
{
    let mut out: Vec<(Txid, BlockHash)> = Vec::new();
    let mut i: usize = 0;
    while i < relevant.len()
        invariant
            0 <= i <= relevant@.len(),
            out@.no_duplicates(),
            out@.to_set() == relevant@.take(i as int).to_set(),
        decreases relevant@.len() - i,
    {
        let item = relevant[i];
        let mut k: usize = 0;
        let mut seen = false;
        while k < out.len()
            invariant
                0 <= k <= out@.len(),
                !seen ==> forall|j: int| 0 <= j < k ==> out@[j] != item,
                seen ==> out@.contains(item),
            decreases out@.len() - k,
        {
            if out[k].0.same(&item.0) && out[k].1.same(&item.1) {
                seen = true;
            }
            k += 1;
        }
        let ghost o0 = out@;
        if !seen {
            out.push(item);
        }
        proof {
            let s0 = relevant@.take(i as int);
            let s1 = relevant@.take(i as int + 1);
            assert(s1 == s0.push(item));
            lemma_push_to_set(s0, item);
            if seen {
                assert(o0.to_set().contains(item));
                assert(out@.to_set() =~= s1.to_set());
            } else {
                assert(out@ == o0.push(item));
                lemma_push_to_set(o0, item);
                assert(out@.no_duplicates()) by {
                    assert forall|a: int, b: int| 0 <= a < b < out@.len() implies out@[a] != out@[b] by {
                        if b == o0.len() {
                            assert(out@[a] == o0[a]);
                        }
                    }
                }
            }
        }
        i += 1;
    }
    assert(relevant@.take(relevant@.len() as int) =~= relevant@);
    proof {
        if relevant@.len() > 0 {
            assert(relevant@.to_set().contains(relevant@[0]));
        }
        if out@.len() > 0 {
            assert(out@.to_set().contains(out@[0]));
        }
    }
    out
}

} // verus!
