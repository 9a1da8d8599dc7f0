//! L1 vertex double-propose detector.
use vstd::prelude::*;
use crate::crypto::Dst;
use crate::dag::{signing_bytes, spec_signing_bytes};
use crate::error::{Error, Result};
use crate::macro_fin::verify::{check_signed, signed_by};
use crate::types::dag::VertexProposal;
use crate::types::primitives::ValidatorId;
use crate::types::slashing::VertexEquivocation;
use crate::types::validator::ValidatorSet;

verus! {

/// Evidence is valid: both vertices authored by the offender in one round with
/// different hashes, and both proposer signatures verify over the signing bytes.
pub open spec fn spec_vertex_equivocation_valid(ev: VertexEquivocation, set: ValidatorSet) -> bool {
    &&& ev.a.0.author == ev.validator
    &&& ev.b.0.author == ev.validator
    &&& ev.a.0.round == ev.b.0.round
    &&& ev.a.0.hash != ev.b.0.hash
    &&& signed_by(set, ev.validator, Dst::VertexProposal, spec_signing_bytes(ev.a.0), ev.a.1)
    &&& signed_by(set, ev.validator, Dst::VertexProposal, spec_signing_bytes(ev.b.0), ev.b.1)
}

/// Verify a vertex-equivocation evidence bundle.
pub fn verify(ev: &VertexEquivocation, set: &ValidatorSet) -> (r: Result<()>)
    ensures
        r is Ok <==> spec_vertex_equivocation_valid(*ev, *set),
        r matches Err(e) ==> e is InvalidConfig,
{
    if !ev.a.0.author.same(&ev.validator) || !ev.b.0.author.same(&ev.validator) {
        return Err(Error::InvalidConfig("equivocation vertices must be authored by the offender".to_owned()));
    }
    if ev.a.0.round.0 != ev.b.0.round.0 || ev.a.0.hash.same(&ev.b.0.hash) {
        return Err(Error::InvalidConfig("equivocation vertices must share round and differ in hash".to_owned()));
    }
    let msg_a = signing_bytes(&ev.a.0);
    if !check_signed(set, &ev.validator, Dst::VertexProposal, &msg_a, &ev.a.1) {
        return Err(Error::InvalidConfig("invalid proposer sig".to_owned()));
    }
    let msg_b = signing_bytes(&ev.b.0);
    if !check_signed(set, &ev.validator, Dst::VertexProposal, &msg_b, &ev.b.1) {
        return Err(Error::InvalidConfig("invalid proposer sig".to_owned()));
    }
    Ok(())
}

/// Build evidence from two conflicting proposals at the same round.
pub fn detect(validator: ValidatorId, a: VertexProposal, b: VertexProposal) -> (ev: VertexEquivocation)
    ensures
        ev == (VertexEquivocation { validator, a: (a.vertex, a.proposer_sig), b: (b.vertex, b.proposer_sig) }),
{
    VertexEquivocation { validator, a: (a.vertex, a.proposer_sig), b: (b.vertex, b.proposer_sig) }
}

} // verus!
