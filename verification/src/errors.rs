//! Error taxonomy of the core: storage failures, chain-connection failures,
//! sync-step failures, and collector failures are kept as distinct types so
//! that a caller can tell a recoverable condition from a fatal one.

use vstd::prelude::*;

verus! {

/// Failure of a storage operation.
#[derive(Clone, Copy, Debug, PartialEq, Eq, Structural)]
pub enum StoreError {
    /// Operational failure of an underlying engine (cache or durable tier).
    Backend,
    /// Data corruption: a decode failure, a malformed fixed-width key, or a
    /// dangling accumulator index. Never retried; surfaced immediately.
    Corruption,
    /// Caller bug detected up front, such as an empty bulk-delete request.
    Precondition,
}

/// Failure of connecting one block onto the chain.
#[derive(Clone, Copy, Debug, PartialEq, Eq, Structural)]
pub enum ConnectBlockError {
    /// The block's timestamp is ahead of the local clock view. Recoverable:
    /// an external driver may retry later; never attributed to peer fault.
    FutureBlock,
    /// Any other verification failure. Attributed to the origin peer.
    VerifyFailed,
}

/// Failure of one paginated sync step.
#[derive(Clone, Copy, Debug, PartialEq, Eq, Structural)]
pub enum SyncError {
    /// The local block store could not be consulted.
    LocalStore,
    /// The network fetch failed; fatal to the current step.
    Fetch,
    /// An identifier was neither found locally nor returned by the network
    /// fetch; fatal to the current step.
    Unresolved,
}

/// Failure of delivering a block-connected notification to the event sink.
/// Non-fatal to the pipeline: the collector logs and continues.
#[derive(Clone, Copy, Debug, PartialEq, Eq, Structural)]
pub struct DeliveryError;

/// Failure of collecting one fetched block into the chain.
#[derive(Clone, Copy, Debug, PartialEq, Eq, Structural)]
pub enum CollectError {
    /// The chain refused the block.
    Connect(ConnectBlockError),
    /// Persisting the failed-block record failed; this failure propagates in
    /// place of the verification error, which stays recorded in its cause.
    SideEffect(StoreError),
    /// Reading the chain's total difficulty after a successful application
    /// failed. The block itself is already part of the chain.
    Difficulty(StoreError),
}

/// Answer of the collector after each item: whether it needs more input.
#[derive(Clone, Copy, Debug, PartialEq, Eq, Structural)]
pub enum CollectorState {
    /// Keep feeding items; the collector never unilaterally halts.
    Need,
    /// The driving task may stop.
    Enough,
}

} // verus!
