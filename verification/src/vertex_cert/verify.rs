//! Signature checks for vertex proposals and partials.
use vstd::prelude::*;
use crate::crypto::Dst;
use crate::dag::{signing_bytes, spec_signing_bytes};
use crate::macro_fin::verify::{check_signed, signed_by};
use crate::types::dag::{Vertex, VertexPartial, VertexProposal};
use crate::types::validator::ValidatorSet;

verus! {

/// The author is in the set and its signature over the signing bytes verifies.
pub open spec fn spec_proposal_valid(set: ValidatorSet, p: VertexProposal) -> bool {
    signed_by(set, p.vertex.author, Dst::VertexProposal, spec_signing_bytes(p.vertex), p.proposer_sig)
}

/// The partial's routing fields name `vertex`, and the voter's signature over
/// the signing bytes verifies.
pub open spec fn spec_partial_valid(set: ValidatorSet, bp: VertexPartial, vertex: Vertex) -> bool {
    &&& bp.vertex_hash == vertex.hash
    &&& bp.round == vertex.round
    &&& bp.author == vertex.author
    &&& signed_by(set, bp.voter, Dst::VertexCert, spec_signing_bytes(vertex), bp.sig)
}

/// Verify a proposal's authority signature (hash integrity is the caller's check).
pub fn verify_proposal(set: &ValidatorSet, p: &VertexProposal) -> (r: bool)
    ensures
        r == spec_proposal_valid(*set, *p),
{
    let msg = signing_bytes(&p.vertex);
    check_signed(set, &p.vertex.author, Dst::VertexProposal, &msg, &p.proposer_sig)
}

/// Verify a partial vote against the proposal's vertex.
pub fn verify_partial(set: &ValidatorSet, bp: &VertexPartial, vertex: &Vertex) -> (r: bool)
    ensures
        r == spec_partial_valid(*set, *bp, *vertex),
{
    if !bp.vertex_hash.same(&vertex.hash) || bp.round.0 != vertex.round.0 || !bp.author.same(&vertex.author) {
        return false;
    }
    let msg = signing_bytes(vertex);
    check_signed(set, &bp.voter, Dst::VertexCert, &msg, &bp.sig)
}

} // verus!
