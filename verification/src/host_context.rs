//! Host-provided ports for one `StateMachine::step` call.
use vstd::prelude::*;
use crate::ports::{Clock, DagView, PendingBlobSource, Persistence, RandomnessBeacon, SignerPort, ValidatorSetPort};

verus! {

/// Borrowed port bundle passed into `StateMachine::step`.
pub struct HostContext<'a> {
    /// Read-only DAG view (certified vertices).
    pub dag: &'a dyn DagView,
    /// Wall clock for timer scheduling.
    pub clock: &'a dyn Clock,
    /// Active validator set.
    pub valset: &'a dyn ValidatorSetPort,
    /// Randomness beacon chain.
    pub beacon: &'a dyn RandomnessBeacon,
    /// Finalized artifact store.
    pub persistence: &'a dyn Persistence,
    /// Local validator signing.
    pub signer: &'a dyn SignerPort,
    /// Blobs queued locally for the next own-vertex proposal.
    pub pending_blobs: &'a dyn PendingBlobSource,
}

} // verus!
