//! `Action`: every side effect the state machine can request.
use vstd::prelude::*;
use crate::api::tier::BlobStatus;
use crate::event::{BlsPartial, SubnetAggregate, TimerId};
use crate::types::dag::{CertifiedVertex, VertexPartial, VertexProposal};
use crate::types::macros::{MacroCheckpoint, MacroProposal, MacroQc};
use crate::types::micro::MicroQc;
use crate::types::primitives::{BlobId, ValidatorId};
use crate::types::slashing::SlashEvidence;

verus! {

/// All outputs from the consensus state machine.
#[derive(Debug, PartialEq, Eq)]
pub enum Action {
    /// Broadcast a local MicroQc.
    BroadcastMicroQc(MicroQc),
    /// Broadcast a macro proposal.
    BroadcastMacroProposal(MacroProposal),
    /// Broadcast a partial BLS signature.
    BroadcastBlsPartial(BlsPartial),
    /// Broadcast a subnet aggregate.
    BroadcastSubnetAggregate(SubnetAggregate),
    /// Broadcast a complete macro QC.
    BroadcastMacroQc(MacroQc),
    /// Schedule a timer; the host answers with `Event::TimerFired(id)` after the delay.
    ScheduleTimer {
        /// Identifier the host echoes back.
        id: TimerId,
        /// Delay in nanoseconds.
        delay_nanos: u128,
    },
    /// Cancel a scheduled timer.
    CancelTimer(TimerId),
    /// Persist an adopted macro checkpoint.
    PersistMacroCheckpoint(MacroCheckpoint),
    /// Persist a macro QC.
    PersistMacroQc(MacroQc),
    /// Emit slashing evidence to gossip and storage.
    EmitSlashEvidence {
        /// The offender.
        offender: ValidatorId,
        /// Evidence payload.
        evidence: SlashEvidence,
    },
    /// Update the externally visible status of a blob.
    UpdateBlobStatus {
        /// Blob whose status changes.
        blob: BlobId,
        /// New status.
        status: BlobStatus,
    },
    /// The inactivity leak starts to apply.
    NotifyInactivityLeak {
        /// Consecutive unfinalized windows so far.
        windows: u32,
        /// Leak rate in basis points per window.
        bps_per_window: u32,
    },
    /// Broadcast this node's vertex proposal.
    BroadcastVertexProposal(VertexProposal),
    /// Send a partial vote for a peer's vertex.
    BroadcastVertexPartial(VertexPartial),
    /// Broadcast a freshly certified own vertex.
    BroadcastCertifiedVertex(CertifiedVertex),
}

/// The actions one step produces, in order.
pub type Actions = Vec<Action>;

/// The actions in a successful result (none for an error).
pub open spec fn produced(r: crate::error::Result<Actions>) -> Seq<Action> {
    match r {
        Ok(a) => a@,
        Err(_) => Seq::empty(),
    }
}

} // verus!
