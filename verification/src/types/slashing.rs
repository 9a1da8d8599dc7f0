//! Slashing evidence.
use vstd::prelude::*;
use crate::types::crypto_types::{BlsSig, Hash32};
use crate::types::dag::Vertex;
use crate::types::macros::MacroCheckpoint;
use crate::types::primitives::{Epoch, ValidatorId};

verus! {

/// Two votes with the same target and different checkpoints.
#[derive(Clone, Copy, Debug, PartialEq, Eq)]
pub struct DoubleVote {
    /// Offender.
    pub validator: ValidatorId,
    /// Shared target epoch.
    pub target: Epoch,
    /// First checkpoint.
    pub a_checkpoint: Hash32,
    /// Signature on the first vote.
    pub a_sig: BlsSig,
    /// Second checkpoint.
    pub b_checkpoint: Hash32,
    /// Signature on the second vote.
    pub b_sig: BlsSig,
}

/// Vote `a` surrounds vote `b`.
#[derive(Clone, Copy, Debug, PartialEq, Eq)]
pub struct SurroundVote {
    /// Offender.
    pub validator: ValidatorId,
    /// Outer source.
    pub a_source: Epoch,
    /// Outer target.
    pub a_target: Epoch,
    /// Outer signature.
    pub a_sig: BlsSig,
    /// Outer checkpoint.
    pub a_checkpoint: Hash32,
    /// Inner source.
    pub b_source: Epoch,
    /// Inner target.
    pub b_target: Epoch,
    /// Inner signature.
    pub b_sig: BlsSig,
    /// Inner checkpoint.
    pub b_checkpoint: Hash32,
}

/// Two signed checkpoints at one height from one proposer.
#[derive(Clone, Copy, Debug, PartialEq, Eq)]
pub struct MacroEquivocation {
    /// Offender.
    pub validator: ValidatorId,
    /// First signed checkpoint.
    pub a: (MacroCheckpoint, BlsSig),
    /// Second signed checkpoint.
    pub b: (MacroCheckpoint, BlsSig),
}

/// Two signed vertices at one round from one author.
#[derive(Debug, PartialEq, Eq)]
pub struct VertexEquivocation {
    /// Offender.
    pub validator: ValidatorId,
    /// First signed vertex.
    pub a: (Vertex, BlsSig),
    /// Second signed vertex.
    pub b: (Vertex, BlsSig),
}

/// Any slashing evidence.
#[derive(Debug, PartialEq, Eq)]
pub enum SlashEvidence {
    /// Macro proposer equivocation.
    MacroEquivocation(MacroEquivocation),
    /// Surround vote.
    Surround(SurroundVote),
    /// Double vote.
    DoubleVote(DoubleVote),
    /// Vertex double-propose.
    VertexEquivocation(VertexEquivocation),
}

} // verus!
