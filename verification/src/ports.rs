//! Host-provided ports. Hosts implement these traits; the state machine
//! reads the outside world only through them.
use vstd::prelude::*;
use crate::error::Result;
use crate::types::crypto_types::{BlsSig, Hash32, VrfProof};
use crate::types::dag::{BlobRef, CertifiedVertex};
use crate::types::macros::{MacroCheckpoint, MacroQc};
use crate::types::micro::MicroQc;
use crate::types::primitives::{Epoch, Height, Round, ValidatorId};
use crate::types::slashing::SlashEvidence;
use crate::types::validator::ValidatorSet;

verus! {

/// Monotonic clock readings in nanoseconds.
pub trait Clock {
    /// Current monotonic time in nanoseconds since an implementation-defined epoch.
    fn now_nanos(&self) -> u128;
}

/// Read-only view over the availability DAG. Implementations answer
/// consistently within one step: the same question gets the same answer.
pub trait DagView {
    /// The certified vertex with a hash, if known.
    spec fn spec_vertex(&self, hash: Hash32) -> Option<CertifiedVertex>;

    /// The certified vertices of a round, in the view's order.
    spec fn spec_vertices_at_round(&self, round: Round) -> Seq<CertifiedVertex>;

    /// The view answers every query: its storage reports no failure. A view
    /// makes that promise by overriding this; by default it makes none.
    open spec fn spec_answers(&self) -> bool {
        false
    }

    /// The certified vertex with `hash`, or `None` if unknown.
    fn vertex(&self, hash: &Hash32) -> (r: Result<Option<CertifiedVertex>>)
        ensures
            r matches Ok(v) ==> v == self.spec_vertex(*hash),
            self.spec_answers() ==> r is Ok,
    ;

    /// Every certified vertex in `round`.
    fn vertices_at_round(&self, round: Round) -> (r: Result<Vec<CertifiedVertex>>)
        ensures
            r matches Ok(v) ==> v@ == self.spec_vertices_at_round(round),
            self.spec_answers() ==> r is Ok,
    ;
}

/// Read access to validator sets, by epoch.
pub trait ValidatorSetPort {
    /// The set the port holds for an epoch.
    spec fn spec_set_for(&self, epoch: Epoch) -> Option<ValidatorSet>;

    /// The port answers every query: its storage reports no failure. A port
    /// makes that promise by overriding this; by default it makes none.
    open spec fn spec_answers(&self) -> bool {
        false
    }

    /// The active validator set for `epoch`.
    fn set_for(&self, epoch: Epoch) -> (r: Result<Option<ValidatorSet>>)
        ensures
            r matches Ok(s) ==> s == self.spec_set_for(epoch),
            self.spec_answers() ==> r is Ok,
    ;

    /// Index of `validator` inside `set_for(epoch)`, if any.
    fn index_of(&self, epoch: Epoch, validator: &ValidatorId) -> Result<Option<u32>>;
}

/// Provider of randomness-beacon outputs.
pub trait RandomnessBeacon {
    /// The beacon output the port currently holds.
    spec fn spec_current(&self) -> Hash32;

    /// The port answers every query: its storage reports no failure. A port
    /// makes that promise by overriding this; by default it makes none.
    open spec fn spec_answers(&self) -> bool {
        false
    }

    /// The latest beacon output (`R_w` for the current window).
    fn current(&self) -> (r: Result<Hash32>)
        ensures
            r matches Ok(h) ==> h == self.spec_current(),
            self.spec_answers() ==> r is Ok,
    ;
}

/// Persistent storage for finalized artifacts and append-only logs.
pub trait Persistence {
    /// Persist a MicroQc.
    fn store_micro_qc(&self, qc: &MicroQc) -> Result<()>;

    /// The stored MicroQc for a checkpoint hash, if any.
    fn micro_qc_for(&self, checkpoint_hash: &Hash32) -> Result<Option<MicroQc>>;

    /// Persist a MacroCheckpoint.
    fn store_macro_checkpoint(&self, cp: &MacroCheckpoint) -> Result<()>;

    /// Persist a finalized MacroQc.
    fn store_macro_qc(&self, qc: &MacroQc) -> Result<()>;

    /// Append slashing evidence to the immutable log.
    fn append_slash_evidence(&self, ev: &SlashEvidence) -> Result<()>;

    /// The macro checkpoint at `height`, if known.
    fn macro_checkpoint_at(&self, height: Height) -> Result<Option<MacroCheckpoint>>;

    /// The macro QC for `checkpoint_hash`, if any.
    fn macro_qc_for(&self, checkpoint_hash: &Hash32) -> Result<Option<MacroQc>>;
}

/// Signs on behalf of the validator that owns the state machine. BLS
/// signing is deterministic: one key, one message, one signature.
pub trait SignerPort {
    /// The signature the local key gives `msg` under `dst`.
    spec fn spec_sign(&self, dst: Seq<u8>, msg: Seq<u8>) -> BlsSig;

    /// BLS sign under the local validator key.
    fn sign_bls(&self, dst: &[u8], msg: &[u8]) -> (r: BlsSig)
        ensures
            r == self.spec_sign(dst@, msg@),
    ;

    /// ECVRF prove for sortition alphas.
    fn vrf_prove(&self, alpha: &[u8]) -> Result<(VrfProof, Hash32)>;
}

/// Stand-in signer for hosts that must never sign: it holds no key. Every
/// signature it returns is the all-zero byte string, which no BLS verifier
/// accepts, and every VRF request fails.
#[derive(Debug, Clone, Copy, PartialEq, Eq, Structural)]
pub struct PanickingSigner;

impl SignerPort for PanickingSigner {
    open spec fn spec_sign(&self, dst: Seq<u8>, msg: Seq<u8>) -> BlsSig {
        BlsSig(vstd::array::spec_array_fill_for_copy_type::<u8, 96>(0u8))
    }

    fn sign_bls(&self, dst: &[u8], msg: &[u8]) -> (r: BlsSig) {
        BlsSig([0u8; 96])
    }

    fn vrf_prove(&self, alpha: &[u8]) -> (r: Result<(VrfProof, Hash32)>)
        ensures
            r matches Err(e) && e is Crypto,
    {
        Err(crate::error::Error::Crypto("no signer configured".to_owned()))
    }
}

impl Default for PanickingSigner {
    fn default() -> (r: Self)
        ensures
            r == PanickingSigner,
    {
        PanickingSigner
    }
}

/// Blobs queued locally for the next own-vertex proposal.
pub trait PendingBlobSource {
    /// Pop every queued blob reference in FIFO order.
    fn drain(&self) -> Vec<BlobRef>;

    /// Told which blobs rode in the proposal just built.
    fn confirm_attached(&self, blobs: &[BlobRef]);
}

/// Source for hosts without blob custody: never has anything queued.
#[derive(Debug, Clone, Copy, PartialEq, Eq, Structural)]
pub struct NoPendingBlobs;

impl PendingBlobSource for NoPendingBlobs {
    fn drain(&self) -> (r: Vec<BlobRef>)
        ensures
            r@.len() == 0,
    {
        Vec::new()
    }

    fn confirm_attached(&self, blobs: &[BlobRef]) {
    }
}

impl Default for NoPendingBlobs {
    fn default() -> (r: Self)
        ensures
            r == NoPendingBlobs,
    {
        NoPendingBlobs
    }
}

} // verus!
