//! `Event`: every input the state machine accepts.
use vstd::prelude::*;
use crate::types::crypto_types::{BlsAggSig, BlsSig, Hash32};
use crate::types::dag::{CertifiedVertex, VertexPartial, VertexProposal};
use crate::types::macros::{MacroProposal, MacroQc};
use crate::types::micro::MicroQc;
use crate::types::primitives::{Epoch, ValidatorId};
use crate::types::slashing::SlashEvidence;
use crate::types::validator::ValidatorSet;

verus! {

/// Subnet index used by Mode A aggregation.
#[derive(Clone, Copy, Debug, PartialEq, Eq, Hash, Structural)]
pub struct SubnetId(pub u32);

/// Opaque timer identifier.
#[derive(Clone, Copy, Debug, PartialEq, Eq, Hash, Structural)]
pub struct TimerId(pub u64);

impl crate::table::Key for SubnetId {
    fn key_eq(&self, other: &Self) -> (r: bool) {
        self.0 == other.0
    }
}

/// Partial BLS signature from one validator, on a subnet (Mode A) or globally.
#[derive(Clone, Copy, Debug, PartialEq, Eq)]
pub struct BlsPartial {
    /// Subnet (`0` for flat aggregation).
    pub subnet: SubnetId,
    /// Signing validator.
    pub validator: ValidatorId,
    /// Attested checkpoint hash.
    pub checkpoint_hash: Hash32,
    /// Partial signature.
    pub sig: BlsSig,
}

/// Subnet-level aggregate produced by a subnet aggregator.
#[derive(Debug, PartialEq, Eq)]
pub struct SubnetAggregate {
    /// Subnet.
    pub subnet: SubnetId,
    /// Attested checkpoint hash.
    pub checkpoint_hash: Hash32,
    /// Aggregated signature and signer bitmap.
    pub agg: BlsAggSig,
}

impl SubnetAggregate {
    /// Same fields, aggregate compared by contents.
    pub open spec fn same_as(&self, other: &SubnetAggregate) -> bool {
        self.subnet == other.subnet && self.checkpoint_hash == other.checkpoint_hash
            && self.agg.same_as(&other.agg)
    }

    /// Deep copy.
    pub fn duplicate(&self) -> (r: SubnetAggregate)
        ensures
            r.same_as(self),
    {
        SubnetAggregate { subnet: self.subnet, checkpoint_hash: self.checkpoint_hash, agg: self.agg.duplicate() }
    }
}

/// All inputs to the consensus state machine.
#[derive(Debug, PartialEq, Eq)]
pub enum Event {
    /// A certified vertex arrived from the DAG layer.
    CertifiedVertexReceived(CertifiedVertex),
    /// A MicroQc was assembled.
    MicroQcAssembled(MicroQc),
    /// A macro proposal was received.
    MacroProposalReceived(MacroProposal),
    /// A partial BLS signature was received.
    BlsPartialReceived(BlsPartial),
    /// A subnet aggregate was received (Mode A).
    SubnetAggregateReceived(SubnetAggregate),
    /// A macro QC was received.
    MacroQcReceived(MacroQc),
    /// A scheduled timer fired.
    TimerFired(TimerId),
    /// The validator set rotated.
    ValidatorSetUpdated {
        /// Epoch the set is valid for.
        epoch: Epoch,
        /// The new set.
        set: ValidatorSet,
    },
    /// Slashing evidence was observed.
    SlashEvidenceFound(SlashEvidence),
    /// A vertex proposal arrived from a peer.
    VertexProposalReceived(VertexProposal),
    /// A vertex partial vote arrived.
    VertexPartialReceived(VertexPartial),
}

} // verus!
