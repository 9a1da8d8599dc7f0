//! Macro equivocation: one proposer, one height, two signed checkpoints.
use vstd::prelude::*;
use crate::crypto::Dst;
use crate::error::{Error, Result};
use crate::macro_fin::messages::{proposer_message, spec_partial_message};
use crate::macro_fin::verify::signed_by;
use crate::types::macros::MacroProposal;
use crate::types::primitives::ValidatorId;
use crate::types::slashing::MacroEquivocation;
use crate::types::validator::ValidatorSet;

verus! {

/// Evidence is valid: same height, different hashes, both signed by the offender.
pub open spec fn spec_equivocation_valid(ev: MacroEquivocation, set: ValidatorSet) -> bool {
    &&& ev.a.0.height == ev.b.0.height
    &&& ev.a.0.hash != ev.b.0.hash
    &&& signed_by(set, ev.validator, Dst::MacroProposerSig, spec_partial_message(ev.validator, ev.a.0.hash), ev.a.1)
    &&& signed_by(set, ev.validator, Dst::MacroProposerSig, spec_partial_message(ev.validator, ev.b.0.hash), ev.b.1)
}

/// Verify a macro-equivocation evidence bundle.
pub fn verify(ev: &MacroEquivocation, set: &ValidatorSet) -> (r: Result<()>)
    ensures
        r is Ok <==> spec_equivocation_valid(*ev, *set),
        r matches Err(e) ==> e is InvalidConfig,
{
    let Some(i) = crate::types::validator::index_in_set(set, &ev.validator) else {
        return Err(Error::InvalidConfig("unknown validator".to_owned()));
    };
    let Some(_pk) = crate::macro_fin::verify::pk_from_entry(&set.entries[i]) else {
        return Err(Error::InvalidConfig("invalid bls pubkey".to_owned()));
    };
    if ev.a.0.height.0 != ev.b.0.height.0 || ev.a.0.hash.same(&ev.b.0.hash) {
        return Err(Error::InvalidConfig("equivocation checkpoints must share height and differ in hash".to_owned()));
    }
    let msg_a = proposer_message(&ev.validator, &ev.a.0);
    if !crate::macro_fin::verify::check_signed(set, &ev.validator, Dst::MacroProposerSig, &msg_a, &ev.a.1) {
        return Err(Error::InvalidConfig("invalid proposer sig".to_owned()));
    }
    let msg_b = proposer_message(&ev.validator, &ev.b.0);
    if !crate::macro_fin::verify::check_signed(set, &ev.validator, Dst::MacroProposerSig, &msg_b, &ev.b.1) {
        return Err(Error::InvalidConfig("invalid proposer sig".to_owned()));
    }
    Ok(())
}

/// Evidence from two conflicting proposals.
pub fn detect(validator: ValidatorId, a: MacroProposal, b: MacroProposal) -> (ev: MacroEquivocation)
    ensures
        ev == (MacroEquivocation { validator, a: (a.checkpoint, a.proposer_sig), b: (b.checkpoint, b.proposer_sig) }),
{
    MacroEquivocation { validator, a: (a.checkpoint, a.proposer_sig), b: (b.checkpoint, b.proposer_sig) }
}

} // verus!
