//! Plain values that stand for the chain data the synchronisation reads.
use vstd::prelude::*;
use vstd::std_specs::cmp::PartialEqSpecImpl;

verus! {

/// Compares two 32-byte hashes byte by byte.
pub fn bytes_equal(a: &[u8; 32], b: &[u8; 32]) -> (r: bool)
    ensures
        r == (*a == *b),
{
    let mut i: usize = 0;
    while i < 32
        invariant
            0 <= i <= 32,
            forall|j: int| 0 <= j < i ==> a@[j] == b@[j],
        decreases 32 - i,
    {
        if a[i] != b[i] {
            return false;
        }
        i += 1;
    }
    assert(*a =~= *b);
    true
}

/// The identifier of a transaction: its double-SHA256 hash, in its internal byte order.
#[derive(Debug, Clone, Copy)]
pub struct Txid(pub [u8; 32]);

/// The hash of a block header, in its internal byte order.
#[derive(Debug, Clone, Copy)]
pub struct BlockHash(pub [u8; 32]);

/// A transaction output: the transaction that created it and its index there.
#[derive(Debug, Clone, Copy)]
pub struct OutPoint {
    pub txid: Txid,
    pub vout: u32,
}

/// A key of the sets of watched items: a value with a decidable equality.
pub trait Key: Copy + Sized {
    /// Tells whether two keys are the same value.
    fn same(&self, other: &Self) -> (b: bool)
        ensures
            b == (*self == *other),
    ;
}

impl Key for Txid {
    fn same(&self, other: &Self) -> (b: bool) {
        bytes_equal(&self.0, &other.0)
    }
}

impl Key for BlockHash {
    fn same(&self, other: &Self) -> (b: bool) {
        bytes_equal(&self.0, &other.0)
    }
}

impl Key for OutPoint {
    fn same(&self, other: &Self) -> (b: bool) {
        self.vout == other.vout && self.txid.same(&other.txid)
    }
}

impl PartialEq for Txid {
    fn eq(&self, other: &Self) -> (r: bool) {
        self.same(other)
    }
}

impl PartialEqSpecImpl for Txid {
    open spec fn obeys_eq_spec() -> bool {
        true
    }

    open spec fn eq_spec(&self, other: &Self) -> bool {
        *self == *other
    }
}

impl PartialEq for BlockHash {
    fn eq(&self, other: &Self) -> (r: bool) {
        self.same(other)
    }
}

impl PartialEqSpecImpl for BlockHash {
    open spec fn obeys_eq_spec() -> bool {
        true
    }

    open spec fn eq_spec(&self, other: &Self) -> bool {
        *self == *other
    }
}

impl PartialEq for OutPoint {
    fn eq(&self, other: &Self) -> (r: bool) {
        self.same(other)
    }
}

impl PartialEqSpecImpl for OutPoint {
    open spec fn obeys_eq_spec() -> bool {
        true
    }

    open spec fn eq_spec(&self, other: &Self) -> bool {
        *self == *other
    }
}

/// How Bitcoin Core sees a chain tip.
#[derive(Debug, Clone, Copy, PartialEq, Eq, Structural)]
pub enum TipStatus {
    /// The branch contains at least one invalid block.
    Invalid,
    /// Not all blocks of the branch are available, but the headers are valid.
    HeadersOnly,
    /// All blocks of the branch are available, but they were never fully validated.
    ValidHeaders,
    /// The branch is not part of the active chain, but is fully validated.
    ValidFork,
    /// The tip of the active main chain.
    Active,
}

/// A chain tip as Bitcoin Core reports it.
#[derive(Debug, Clone, Copy)]
pub struct ChainTip {
    pub height: u64,
    pub hash: BlockHash,
    pub status: TipStatus,
}

} // verus!
