//! Read-only consensus queries surfaced to the RPC layer.
use vstd::prelude::*;
use crate::api::tier::BlobStatus;
use crate::error::Result;
use crate::types::crypto_types::Hash32;
use crate::types::macros::MacroQc;
use crate::types::primitives::{BlobId, Height, Round};

verus! {

/// Read-only queries on the in-memory state, implemented by hosts.
pub trait ConsensusQuery: Send + Sync {
    /// Last finalized macro QC.
    fn latest_finalized(&self) -> Result<Option<MacroQc>>;

    /// Round of the most recently committed micro checkpoint.
    fn micro_head(&self) -> Result<Round>;

    /// Status of a specific blob.
    fn blob_status(&self, blob: &BlobId) -> Result<BlobStatus>;

    /// MacroCheckpoint hash at `height`, if any.
    fn macro_checkpoint_hash(&self, height: Height) -> Result<Option<Hash32>>;
}

} // verus!
