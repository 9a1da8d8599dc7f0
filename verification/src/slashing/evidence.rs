//! Verifier for any slashing evidence.
use vstd::prelude::*;
use crate::error::Result;
use crate::slashing::double_vote::spec_double_vote_valid;
use crate::slashing::equivocation::spec_equivocation_valid;
use crate::slashing::surround::spec_surround_valid;
use crate::slashing::vertex_equivocation::spec_vertex_equivocation_valid;
use crate::types::slashing::SlashEvidence;
use crate::types::validator::ValidatorSet;

verus! {

/// The evidence is valid against the set.
pub open spec fn spec_evidence_valid(ev: SlashEvidence, set: ValidatorSet) -> bool {
    match ev {
        SlashEvidence::MacroEquivocation(e) => spec_equivocation_valid(e, set),
        SlashEvidence::Surround(e) => spec_surround_valid(e, set),
        SlashEvidence::DoubleVote(e) => spec_double_vote_valid(e, set),
        SlashEvidence::VertexEquivocation(e) => spec_vertex_equivocation_valid(e, set),
    }
}

/// Verify a slashing evidence bundle against a validator set snapshot.
pub fn verify_evidence(ev: &SlashEvidence, set: &ValidatorSet) -> (r: Result<()>)
    ensures
        r is Ok <==> spec_evidence_valid(*ev, *set),
        r matches Err(e) ==> e is InvalidConfig,
{
    match ev {
        SlashEvidence::MacroEquivocation(e) => crate::slashing::equivocation::verify(e, set),
        SlashEvidence::Surround(e) => crate::slashing::surround::verify(e, set),
        SlashEvidence::DoubleVote(e) => crate::slashing::double_vote::verify(e, set),
        SlashEvidence::VertexEquivocation(e) => crate::slashing::vertex_equivocation::verify(e, set),
    }
}

} // verus!
