//! Transaction synchronisation between a Lightning node and a `bitcoind` backend.
//!
//! The library holds the decisions of the synchronisation: which transactions and
//! outputs are watched, which of them were confirmed or unconfirmed, in which order
//! the confirmations are handed on, and when a run ends or restarts. The remote
//! procedure calls and the notifications of the Lightning node are performed by the
//! caller, driven by the actions of [`sync::SyncRun`].
pub mod error;
pub mod types;
pub mod keyset;
pub mod state;
pub mod confirm;
pub mod chain;
pub mod sync;
