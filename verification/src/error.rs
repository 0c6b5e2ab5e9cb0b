//! Errors of a transaction sync.
use vstd::prelude::*;
use vstd::std_specs::convert::FromSpecImpl;

verus! {

/// An error that possibly needs to be handled by the user.
#[derive(Debug, Clone, Copy, PartialEq, Eq, Structural)]
pub enum TxSyncError {
    /// A transaction sync failed and needs to be retried eventually.
    Failed,
}

/// An error met inside a sync run.
#[derive(Debug, Clone, Copy, PartialEq, Eq, Structural)]
pub enum InternalError {
    /// A transaction sync failed and needs to be retried eventually.
    Failed,
    /// An inconsistency was encountered during transaction sync.
    Inconsistency,
}

impl TxSyncError {
    /// The text that describes the error to a user.
    pub fn message(&self) -> (s: &'static str)
        ensures
            s@ == "Failed to conduct transaction sync."@,
    {
        match self {
            TxSyncError::Failed => "Failed to conduct transaction sync.",
        }
    }
}

impl InternalError {
    /// The text that describes the error to a user.
    pub fn message(&self) -> (s: &'static str)
        ensures
            *self == InternalError::Failed ==> s@ == "Failed to conduct transaction sync."@,
            *self == InternalError::Inconsistency
                ==> s@ == "Encountered an inconsistency during transaction sync."@,
    {
        match self {
            InternalError::Failed => "Failed to conduct transaction sync.",
            InternalError::Inconsistency => "Encountered an inconsistency during transaction sync.",
        }
    }
}

/// Any error met inside a run fails the sync.
impl From<InternalError> for TxSyncError {
    fn from(e: InternalError) -> (r: Self) {
        TxSyncError::Failed
    }
}

impl FromSpecImpl<InternalError> for TxSyncError {
    open spec fn obeys_from_spec() -> bool {
        true
    }

    open spec fn from_spec(e: InternalError) -> TxSyncError {
        TxSyncError::Failed
    }
}

/// Declares `bdk::Error`, carried into a [`TxSyncError`].
#[verifier::external_type_specification]
#[verifier::external_body]
pub struct ExBdkError(bdk::Error);

/// Declares `bitcoincore_rpc::Error`, the error of a remote procedure call.
#[verifier::external_type_specification]
#[verifier::external_body]
pub struct ExRpcError(bitcoincore_rpc::Error);

/// Declares `esplora_client::Error`.
#[verifier::external_type_specification]
#[verifier::external_body]
pub struct ExEsploraError(esplora_client::Error);

/// Declares `bitcoin::consensus::encode::Error`, met when a transaction does not decode.
#[verifier::external_type_specification]
#[verifier::external_body]
pub struct ExEncodeError(bitcoin::consensus::encode::Error);

/// Declares `bitcoin::blockdata::block::Bip34Error`, met when a block holds no height.
#[verifier::external_type_specification]
#[verifier::external_body]
pub struct ExBip34Error(bitcoin::blockdata::block::Bip34Error);

/// An error of the wallet library fails the sync.
impl From<bdk::Error> for TxSyncError {
    fn from(e: bdk::Error) -> (r: Self) {
        TxSyncError::Failed
    }
}

impl FromSpecImpl<bdk::Error> for TxSyncError {
    open spec fn obeys_from_spec() -> bool {
        true
    }

    open spec fn from_spec(e: bdk::Error) -> TxSyncError {
        TxSyncError::Failed
    }
}

/// A failed remote procedure call fails the sync.
impl From<bitcoincore_rpc::Error> for TxSyncError {
    fn from(e: bitcoincore_rpc::Error) -> (r: Self) {
        TxSyncError::Failed
    }
}

impl FromSpecImpl<bitcoincore_rpc::Error> for TxSyncError {
    open spec fn obeys_from_spec() -> bool {
        true
    }

    open spec fn from_spec(e: bitcoincore_rpc::Error) -> TxSyncError {
        TxSyncError::Failed
    }
}

/// A failed Esplora request fails the sync.
impl From<esplora_client::Error> for TxSyncError {
    fn from(e: esplora_client::Error) -> (r: Self) {
        TxSyncError::Failed
    }
}

impl FromSpecImpl<esplora_client::Error> for TxSyncError {
    open spec fn obeys_from_spec() -> bool {
        true
    }

    open spec fn from_spec(e: esplora_client::Error) -> TxSyncError {
        TxSyncError::Failed
    }
}

/// A failed remote procedure call fails the run.
impl From<bitcoincore_rpc::Error> for InternalError {
    fn from(e: bitcoincore_rpc::Error) -> (r: Self) {
        InternalError::Failed
    }
}

impl FromSpecImpl<bitcoincore_rpc::Error> for InternalError {
    open spec fn obeys_from_spec() -> bool {
        true
    }

    open spec fn from_spec(e: bitcoincore_rpc::Error) -> InternalError {
        InternalError::Failed
    }
}

/// A transaction that does not decode fails the run.
impl From<bitcoin::consensus::encode::Error> for InternalError {
    fn from(e: bitcoin::consensus::encode::Error) -> (r: Self) {
        InternalError::Failed
    }
}

impl FromSpecImpl<bitcoin::consensus::encode::Error> for InternalError {
    open spec fn obeys_from_spec() -> bool {
        true
    }

    open spec fn from_spec(e: bitcoin::consensus::encode::Error) -> InternalError {
        InternalError::Failed
    }
}

/// A block that states no height fails the run.
impl From<bitcoin::blockdata::block::Bip34Error> for InternalError {
    fn from(e: bitcoin::blockdata::block::Bip34Error) -> (r: Self) {
        InternalError::Failed
    }
}

impl FromSpecImpl<bitcoin::blockdata::block::Bip34Error> for InternalError {
    open spec fn obeys_from_spec() -> bool {
        true
    }

    open spec fn from_spec(e: bitcoin::blockdata::block::Bip34Error) -> InternalError {
        InternalError::Failed
    }
}

/// A failed Esplora request fails the run.
impl From<esplora_client::Error> for InternalError {
    fn from(e: esplora_client::Error) -> (r: Self) {
        InternalError::Failed
    }
}

impl FromSpecImpl<esplora_client::Error> for InternalError {
    open spec fn obeys_from_spec() -> bool {
        true
    }

    open spec fn from_spec(e: esplora_client::Error) -> InternalError {
        InternalError::Failed
    }
}

} // verus!
