//! Micro (wave-level) quorum certificates.
use vstd::prelude::*;
use crate::types::crypto_types::{BlsAggSig, Hash32};

verus! {

/// Quorum certificate over a micro checkpoint.
#[derive(Debug, PartialEq, Eq)]
pub struct MicroQc {
    /// Certified checkpoint hash.
    pub checkpoint_hash: Hash32,
    /// Aggregate signature and signer bitmap.
    pub agg: BlsAggSig,
}

impl MicroQc {
    /// Same fields, aggregate compared by contents.
    pub open spec fn same_as(&self, other: &MicroQc) -> bool {
        self.checkpoint_hash == other.checkpoint_hash && self.agg.same_as(&other.agg)
    }

    /// Deep copy.
    pub fn duplicate(&self) -> (r: MicroQc)
        ensures
            r.same_as(self),
    {
        MicroQc { checkpoint_hash: self.checkpoint_hash, agg: self.agg.duplicate() }
    }
}

} // verus!
