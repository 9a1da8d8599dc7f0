//! Macro checkpoints, proposals and quorum certificates.
use vstd::prelude::*;
use crate::types::crypto_types::{BlsAggSig, BlsSig, Hash32, VrfProof};
use crate::types::primitives::{Epoch, Height, ValidatorId};

verus! {

/// Aggregation mode a macro QC was assembled under.
#[derive(Clone, Copy, Debug, PartialEq, Eq, Structural)]
pub enum AggregationMode {
    /// Flat aggregation over all signers.
    Mode0Flat,
    /// Union of subnet aggregates.
    ModeASubnet,
    /// Leaderless fallback.
    ModeBLeaderless,
}

/// Checkpoint summarising one macro window.
#[derive(Clone, Copy, Debug, PartialEq, Eq)]
pub struct MacroCheckpoint {
    /// Height.
    pub height: Height,
    /// Epoch.
    pub epoch: Epoch,
    /// Hash of the parent checkpoint.
    pub parent: Hash32,
    /// Root over the window's micro checkpoints.
    pub micro_root: Hash32,
    /// Canonical hash of the four fields above.
    pub hash: Hash32,
}

/// A proposer's signed checkpoint.
#[derive(Clone, Copy, Debug, PartialEq, Eq)]
pub struct MacroProposal {
    /// The proposed checkpoint.
    pub checkpoint: MacroCheckpoint,
    /// Proposer.
    pub proposer: ValidatorId,
    /// Proposer's VRF proof for the slot.
    pub vrf_proof: VrfProof,
    /// Proposer's signature.
    pub proposer_sig: BlsSig,
}

/// Quorum certificate over a macro checkpoint.
#[derive(Debug, PartialEq, Eq)]
pub struct MacroQc {
    /// Certified checkpoint hash.
    pub checkpoint_hash: Hash32,
    /// Aggregation mode.
    pub mode: AggregationMode,
    /// Aggregate signature and signer bitmap.
    pub agg: BlsAggSig,
}

impl MacroQc {
    /// Same fields, aggregate compared by contents.
    pub open spec fn same_as(&self, other: &MacroQc) -> bool {
        self.checkpoint_hash == other.checkpoint_hash && self.mode == other.mode && self.agg.same_as(&other.agg)
    }

    /// Deep copy.
    pub fn duplicate(&self) -> (r: MacroQc)
        ensures
            r.same_as(self),
    {
        MacroQc { checkpoint_hash: self.checkpoint_hash, mode: self.mode, agg: self.agg.duplicate() }
    }
}

} // verus!
