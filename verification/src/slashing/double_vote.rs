//! Casper-FFG double-vote detector.
use vstd::prelude::*;
use crate::error::Error;
use crate::macro_fin::vote_book::{VoteBook, VoteRecord};
use crate::crypto::Dst;
use crate::macro_fin::messages::{spec_vote_message, vote_message};
use crate::macro_fin::verify::{check_signed, signed_by};
use crate::types::crypto_types::{BlsSig, Hash32};
use crate::types::primitives::{Epoch, ValidatorId};
use crate::types::slashing::DoubleVote;
use crate::types::validator::ValidatorSet;

verus! {

/// Same target, different checkpoint.
pub open spec fn double_pair(old: VoteRecord, new: VoteRecord) -> bool {
    old.target == new.target && old.checkpoint != new.checkpoint
}

/// Evidence from an older vote `old` and the newest vote `new`.
pub open spec fn double_evidence(v: ValidatorId, old: VoteRecord, new: VoteRecord) -> DoubleVote {
    DoubleVote {
        validator: v,
        target: new.target,
        a_checkpoint: old.checkpoint,
        a_sig: old.sig,
        b_checkpoint: new.checkpoint,
        b_sig: new.sig,
    }
}

/// Scanning older votes `olds[i..]` against the newest vote `new`.
pub open spec fn scan_double_from(v: ValidatorId, new: VoteRecord, olds: Seq<VoteRecord>, i: int) -> Option<DoubleVote>
    decreases olds.len() - i,
{
    if i < 0 || i >= olds.len() {
        None
    } else if double_pair(olds[i], new) {
        Some(double_evidence(v, olds[i], new))
    } else {
        scan_double_from(v, new, olds, i + 1)
    }
}

/// What scanning `votes` (oldest first) reports: the first older vote at the
/// newest vote's target with a different checkpoint.
pub open spec fn spec_scan_double(v: ValidatorId, votes: Seq<VoteRecord>) -> Option<DoubleVote> {
    if votes.len() < 2 {
        None
    } else {
        scan_double_from(v, votes.last(), votes.drop_last(), 0)
    }
}

/// Scan for two votes at the same target epoch with different checkpoints.
pub fn scan_for_double_vote(book: &VoteBook, validator: &ValidatorId) -> (r: Result<Option<DoubleVote>, Error>)
    ensures
        r == Ok::<Option<DoubleVote>, Error>(spec_scan_double(*validator, book.spec_votes_of(*validator))),
{
    let votes = book.votes_of(validator);
    let n = votes.len();
    if n < 2 {
        return Ok(None);
    }
    let new = votes[n - 1];
    let ghost olds = votes@.drop_last();
    let mut i: usize = 0;
    while i < n - 1
        invariant
            n == votes@.len(),
            n >= 2,
            new == votes@.last(),
            olds == votes@.drop_last(),
            votes@ == book.spec_votes_of(*validator),
            0 <= i <= n - 1,
            spec_scan_double(*validator, votes@) == scan_double_from(*validator, new, olds, i as int),
        decreases n - 1 - i,
    {
        let old = votes[i];
        assert(olds[i as int] == old);
        if old.target.0 == new.target.0 && !old.checkpoint.same(&new.checkpoint) {
            return Ok(Some(DoubleVote {
                validator: *validator,
                target: new.target,
                a_checkpoint: old.checkpoint,
                a_sig: old.sig,
                b_checkpoint: new.checkpoint,
                b_sig: new.sig,
            }));
        }
        i = i + 1;
    }
    Ok(None)
}

proof fn lemma_scan_from_is_double(v: ValidatorId, new: VoteRecord, olds: Seq<VoteRecord>, i: int)
    requires
        scan_double_from(v, new, olds, i) is Some,
    ensures
        scan_double_from(v, new, olds, i)->0.a_checkpoint != scan_double_from(v, new, olds, i)->0.b_checkpoint,
        scan_double_from(v, new, olds, i)->0.validator == v,
    decreases olds.len() - i,
{
    if i >= 0 && i < olds.len() && !double_pair(olds[i], new) {
        lemma_scan_from_is_double(v, new, olds, i + 1);
    }
}

/// Any evidence the scan reports names two distinct checkpoints at one target.
pub proof fn lemma_scan_evidence_is_double(v: ValidatorId, votes: Seq<VoteRecord>)
    requires
        spec_scan_double(v, votes) is Some,
    ensures
        spec_scan_double(v, votes)->0.a_checkpoint != spec_scan_double(v, votes)->0.b_checkpoint,
        spec_scan_double(v, votes)->0.validator == v,
{
    lemma_scan_from_is_double(v, votes.last(), votes.drop_last(), 0);
}

proof fn lemma_scan_from_first(v: ValidatorId, new: VoteRecord, olds: Seq<VoteRecord>, i: int)
    requires
        0 <= i <= olds.len(),
    ensures
        scan_double_from(v, new, olds, i) is Some <==> exists|k: int| i <= k < olds.len() && #[trigger] double_pair(olds[k], new),
        scan_double_from(v, new, olds, i) matches Some(ev) ==> exists|k: int|
            i <= k < olds.len() && #[trigger] double_pair(olds[k], new)
                && (forall|j: int| i <= j < k ==> !double_pair(#[trigger] olds[j], new))
                && ev == double_evidence(v, olds[k], new),
    decreases olds.len() - i,
{
    if i < olds.len() {
        lemma_scan_from_first(v, new, olds, i + 1);
        if !double_pair(olds[i], new) {
            assert(scan_double_from(v, new, olds, i) == scan_double_from(v, new, olds, i + 1));
            assert forall|k: int| i <= k < olds.len() && #[trigger] double_pair(olds[k], new) implies i + 1 <= k by {}
            if scan_double_from(v, new, olds, i + 1) is Some {
                let ev = scan_double_from(v, new, olds, i + 1)->0;
                let k = choose|k: int| i + 1 <= k < olds.len() && #[trigger] double_pair(olds[k], new)
                    && (forall|j: int| i + 1 <= j < k ==> !double_pair(#[trigger] olds[j], new))
                    && ev == double_evidence(v, olds[k], new);
                assert forall|j: int| i <= j < k implies !double_pair(#[trigger] olds[j], new) by {
                    if j != i {
                        assert(i + 1 <= j < k);
                    }
                }
            }
        }
    }
}

/// The double-vote scan is complete and picks the oldest offending vote: it
/// reports evidence exactly when some older vote of the validator has the
/// newest vote's target and names another checkpoint, whatever votes stand
/// between them; the evidence pairs the first such older vote (`a`) with the
/// newest vote (`b`) at that target.
pub proof fn lemma_double_scan_complete(v: ValidatorId, votes: Seq<VoteRecord>)
    ensures
        spec_scan_double(v, votes) is Some <==> (votes.len() >= 2 && exists|i: int|
            0 <= i < votes.len() - 1 && (#[trigger] votes[i]).target == votes.last().target
                && votes[i].checkpoint != votes.last().checkpoint),
        spec_scan_double(v, votes) matches Some(ev) ==> exists|i: int|
            0 <= i < votes.len() - 1 && (#[trigger] votes[i]).target == votes.last().target
                && votes[i].checkpoint != votes.last().checkpoint
                && (forall|j: int| 0 <= j < i ==> !((#[trigger] votes[j]).target == votes.last().target
                    && votes[j].checkpoint != votes.last().checkpoint))
                && ev == (DoubleVote {
                    validator: v,
                    target: votes.last().target,
                    a_checkpoint: votes[i].checkpoint,
                    a_sig: votes[i].sig,
                    b_checkpoint: votes.last().checkpoint,
                    b_sig: votes.last().sig,
                }),
{
    if votes.len() >= 2 {
        let new = votes.last();
        let olds = votes.drop_last();
        lemma_scan_from_first(v, new, olds, 0);
        if exists|i: int| 0 <= i < votes.len() - 1 && (#[trigger] votes[i]).target == votes.last().target
                && votes[i].checkpoint != votes.last().checkpoint {
            let i = choose|i: int| 0 <= i < votes.len() - 1 && (#[trigger] votes[i]).target == votes.last().target
                && votes[i].checkpoint != votes.last().checkpoint;
            assert(olds[i] == votes[i]);
            assert(double_pair(olds[i], new));
        }
        if spec_scan_double(v, votes) is Some {
            let k = choose|k: int| 0 <= k < olds.len() && #[trigger] double_pair(olds[k], new)
                && (forall|j: int| 0 <= j < k ==> !double_pair(#[trigger] olds[j], new))
                && spec_scan_double(v, votes)->0 == double_evidence(v, olds[k], new);
            assert(votes[k] == olds[k]);
            assert forall|j: int| 0 <= j < k implies !((#[trigger] votes[j]).target == votes.last().target
                && votes[j].checkpoint != votes.last().checkpoint) by {
                assert(votes[j] == olds[j]);
                assert(!double_pair(olds[j], new));
            }
        }
    }
}

/// The vote on `cp` at `target`, with source `target - 1` (saturating).
pub open spec fn vote_at(target: Epoch, cp: Hash32, sig: BlsSig) -> VoteRecord {
    VoteRecord { source: Epoch(if target.0 == 0 { 0 } else { (target.0 - 1) as u64 }), target, checkpoint: cp, sig }
}

/// Double-vote evidence is valid: distinct checkpoints and both votes signed
/// by the offender under the vote tag.
pub open spec fn spec_double_vote_valid(ev: DoubleVote, set: ValidatorSet) -> bool {
    &&& ev.a_checkpoint != ev.b_checkpoint
    &&& signed_by(set, ev.validator, Dst::MacroVote, spec_vote_message(vote_at(ev.target, ev.a_checkpoint, ev.a_sig)), ev.a_sig)
    &&& signed_by(set, ev.validator, Dst::MacroVote, spec_vote_message(vote_at(ev.target, ev.b_checkpoint, ev.b_sig)), ev.b_sig)
}

/// Verify double-vote evidence signatures.
pub fn verify(ev: &DoubleVote, set: &ValidatorSet) -> (r: Result<(), Error>)
    ensures
        r is Ok <==> spec_double_vote_valid(*ev, *set),
        r matches Err(e) ==> e is InvalidConfig,
{
    if ev.a_checkpoint.same(&ev.b_checkpoint) {
        return Err(Error::InvalidConfig("double vote requires distinct checkpoints".to_owned()));
    }
    let source = Epoch(ev.target.0.saturating_sub(1));
    let a = VoteRecord { source, target: ev.target, checkpoint: ev.a_checkpoint, sig: ev.a_sig };
    let b = VoteRecord { source, target: ev.target, checkpoint: ev.b_checkpoint, sig: ev.b_sig };
    let msg_a = vote_message(&a);
    if !check_signed(set, &ev.validator, Dst::MacroVote, &msg_a, &ev.a_sig) {
        return Err(Error::InvalidConfig("invalid vote sig".to_owned()));
    }
    let msg_b = vote_message(&b);
    if !check_signed(set, &ev.validator, Dst::MacroVote, &msg_b, &ev.b_sig) {
        return Err(Error::InvalidConfig("invalid vote sig".to_owned()));
    }
    Ok(())
}

} // verus!
