//! Blob lifecycle: accepted, soft-confirmed, justified, finalized, epoch-finalized.
use vstd::prelude::*;

verus! {

/// Externally visible status of a blob.
#[derive(Clone, Copy, Debug, PartialEq, Eq, PartialOrd, Ord, Hash, Structural)]
pub enum BlobStatus {
    /// L1 accepted (custody acknowledged).
    Accepted,
    /// L2 micro-committed (within wave).
    SoftConfirmed,
    /// L3 justified (one macro window of 2-chain).
    Justified,
    /// L3 finalized (full 2-chain).
    Finalized,
    /// L4 anchored (placeholder).
    EpochFinalized,
}

impl BlobStatus {
    /// Position in the lifecycle (wire discriminant).
    pub open spec fn spec_rank(self) -> u8 {
        match self {
            BlobStatus::Accepted => 0,
            BlobStatus::SoftConfirmed => 1,
            BlobStatus::Justified => 2,
            BlobStatus::Finalized => 3,
            BlobStatus::EpochFinalized => 4,
        }
    }

    /// Position in the lifecycle (wire discriminant).
    pub fn rank(self) -> (r: u8)
        ensures
            r == self.spec_rank(),
    {
        match self {
            BlobStatus::Accepted => 0,
            BlobStatus::SoftConfirmed => 1,
            BlobStatus::Justified => 2,
            BlobStatus::Finalized => 3,
            BlobStatus::EpochFinalized => 4,
        }
    }
}

} // verus!
