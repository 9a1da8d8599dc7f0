//! Casper-FFG surround-vote detector.
use vstd::prelude::*;
use crate::error::Error;
use crate::macro_fin::vote_book::{VoteBook, VoteRecord};
use crate::crypto::Dst;
use crate::macro_fin::messages::{spec_vote_message, vote_message};
use crate::macro_fin::verify::{check_signed, signed_by};
use crate::types::primitives::ValidatorId;
use crate::types::slashing::SurroundVote;
use crate::types::validator::ValidatorSet;

verus! {

/// Casper rule: `a` surrounds `b` when `a.source < b.source <= b.target < a.target`.
pub open spec fn spec_surrounds(a_source: u64, a_target: u64, b_source: u64, b_target: u64) -> bool {
    a_source < b_source && b_source <= b_target && b_target < a_target
}

/// Casper rule: `a` surrounds `b` when `a.source < b.source <= b.target < a.target`.
pub fn surrounds(a_source: u64, a_target: u64, b_source: u64, b_target: u64) -> (r: bool)
    ensures
        r == spec_surrounds(a_source, a_target, b_source, b_target),
{
    a_source < b_source && b_source <= b_target && b_target < a_target
}

/// Either vote surrounds the other.
pub open spec fn surround_pair(x: VoteRecord, y: VoteRecord) -> bool {
    spec_surrounds(x.source.0, x.target.0, y.source.0, y.target.0)
        || spec_surrounds(y.source.0, y.target.0, x.source.0, x.target.0)
}

/// Evidence from outer vote `a` and inner vote `b`.
pub open spec fn surround_evidence(v: ValidatorId, a: VoteRecord, b: VoteRecord) -> SurroundVote {
    SurroundVote {
        validator: v,
        a_source: a.source,
        a_target: a.target,
        a_sig: a.sig,
        a_checkpoint: a.checkpoint,
        b_source: b.source,
        b_target: b.target,
        b_sig: b.sig,
        b_checkpoint: b.checkpoint,
    }
}

/// The evidence the scan reports for the newest vote `new` against an older vote `old`.
pub open spec fn evidence_against(v: ValidatorId, new: VoteRecord, old: VoteRecord) -> SurroundVote {
    if spec_surrounds(new.source.0, new.target.0, old.source.0, old.target.0) {
        surround_evidence(v, new, old)
    } else {
        surround_evidence(v, old, new)
    }
}

/// Scanning older votes `olds[i..]` against the newest vote `new`.
pub open spec fn scan_surround_from(v: ValidatorId, new: VoteRecord, olds: Seq<VoteRecord>, i: int) -> Option<SurroundVote>
    decreases olds.len() - i,
{
    if i < 0 || i >= olds.len() {
        None
    } else if surround_pair(new, olds[i]) {
        Some(evidence_against(v, new, olds[i]))
    } else {
        scan_surround_from(v, new, olds, i + 1)
    }
}

/// What scanning `votes` (oldest first) reports: the first older vote that
/// surrounds, or is surrounded by, the newest one.
pub open spec fn spec_scan_surround(v: ValidatorId, votes: Seq<VoteRecord>) -> Option<SurroundVote> {
    if votes.len() < 2 {
        None
    } else {
        scan_surround_from(v, votes.last(), votes.drop_last(), 0)
    }
}

/// Scan `book` for a surround vote by `validator`: the newest vote against each older one.
pub fn scan_for_surround(book: &VoteBook, validator: &ValidatorId) -> (r: Result<Option<SurroundVote>, Error>)
    ensures
        r == Ok::<Option<SurroundVote>, Error>(spec_scan_surround(*validator, book.spec_votes_of(*validator))),
{
    let votes = book.votes_of(validator);
    let n = votes.len();
    if n < 2 {
        return Ok(None);
    }
    let new = votes[n - 1];
    let ghost olds = votes@.drop_last();
    let mut i: usize = 0;
    while i < n - 1
        invariant
            n == votes@.len(),
            n >= 2,
            new == votes@.last(),
            olds == votes@.drop_last(),
            votes@ == book.spec_votes_of(*validator),
            0 <= i <= n - 1,
            spec_scan_surround(*validator, votes@) == scan_surround_from(*validator, new, olds, i as int),
        decreases n - 1 - i,
    {
        let old = votes[i];
        assert(olds[i as int] == old);
        if surrounds(new.source.0, new.target.0, old.source.0, old.target.0) {
            return Ok(Some(SurroundVote {
                validator: *validator,
                a_source: new.source,
                a_target: new.target,
                a_sig: new.sig,
                a_checkpoint: new.checkpoint,
                b_source: old.source,
                b_target: old.target,
                b_sig: old.sig,
                b_checkpoint: old.checkpoint,
            }));
        }
        if surrounds(old.source.0, old.target.0, new.source.0, new.target.0) {
            return Ok(Some(SurroundVote {
                validator: *validator,
                a_source: old.source,
                a_target: old.target,
                a_sig: old.sig,
                a_checkpoint: old.checkpoint,
                b_source: new.source,
                b_target: new.target,
                b_sig: new.sig,
                b_checkpoint: new.checkpoint,
            }));
        }
        i = i + 1;
    }
    Ok(None)
}

proof fn lemma_scan_from_is_surround(v: ValidatorId, new: VoteRecord, olds: Seq<VoteRecord>, i: int)
    requires
        scan_surround_from(v, new, olds, i) is Some,
    ensures
        ({
            let ev = scan_surround_from(v, new, olds, i)->0;
            spec_surrounds(ev.a_source.0, ev.a_target.0, ev.b_source.0, ev.b_target.0)
                && ev.validator == v
        }),
    decreases olds.len() - i,
{
    if i >= 0 && i < olds.len() && !surround_pair(new, olds[i]) {
        lemma_scan_from_is_surround(v, new, olds, i + 1);
    }
}

/// Any evidence the scan reports is a genuine surround relation: outer
/// vote `a` surrounds inner vote `b`.
pub proof fn lemma_scan_evidence_is_surround(v: ValidatorId, votes: Seq<VoteRecord>)
    requires
        spec_scan_surround(v, votes) is Some,
    ensures
        ({
            let ev = spec_scan_surround(v, votes)->0;
            spec_surrounds(ev.a_source.0, ev.a_target.0, ev.b_source.0, ev.b_target.0)
                && ev.validator == v
        }),
{
    lemma_scan_from_is_surround(v, votes.last(), votes.drop_last(), 0);
}

proof fn lemma_scan_from_first(v: ValidatorId, new: VoteRecord, olds: Seq<VoteRecord>, i: int)
    requires
        0 <= i <= olds.len(),
    ensures
        scan_surround_from(v, new, olds, i) is Some <==> exists|k: int| i <= k < olds.len() && #[trigger] surround_pair(new, olds[k]),
        scan_surround_from(v, new, olds, i) matches Some(ev) ==> exists|k: int|
            i <= k < olds.len() && #[trigger] surround_pair(new, olds[k])
                && (forall|j: int| i <= j < k ==> !surround_pair(new, #[trigger] olds[j]))
                && ev == evidence_against(v, new, olds[k]),
    decreases olds.len() - i,
{
    if i < olds.len() {
        lemma_scan_from_first(v, new, olds, i + 1);
        if !surround_pair(new, olds[i]) {
            assert(scan_surround_from(v, new, olds, i) == scan_surround_from(v, new, olds, i + 1));
            assert forall|k: int| i <= k < olds.len() && #[trigger] surround_pair(new, olds[k]) implies i + 1 <= k by {}
            if scan_surround_from(v, new, olds, i + 1) is Some {
                let ev = scan_surround_from(v, new, olds, i + 1)->0;
                let k = choose|k: int| i + 1 <= k < olds.len() && #[trigger] surround_pair(new, olds[k])
                    && (forall|j: int| i + 1 <= j < k ==> !surround_pair(new, #[trigger] olds[j]))
                    && ev == evidence_against(v, new, olds[k]);
                assert forall|j: int| i <= j < k implies !surround_pair(new, #[trigger] olds[j]) by {
                    if j != i {
                        assert(i + 1 <= j < k);
                    }
                }
            }
        }
    }
}

/// The surround scan is complete and picks the oldest offending vote: it
/// reports evidence exactly when some older vote of the validator surrounds,
/// or is surrounded by, the newest vote (`a.source < b.source <= b.target <
/// a.target`); the evidence pairs the newest vote with the first such older
/// vote, the newest vote as the outer one `a` when it surrounds the older.
pub proof fn lemma_surround_scan_complete(v: ValidatorId, votes: Seq<VoteRecord>)
    ensures
        spec_scan_surround(v, votes) is Some <==> (votes.len() >= 2 && exists|i: int|
            0 <= i < votes.len() - 1 && (
                (votes.last().source.0 < (#[trigger] votes[i]).source.0 && votes[i].source.0 <= votes[i].target.0
                    && votes[i].target.0 < votes.last().target.0)
                || (votes[i].source.0 < votes.last().source.0 && votes.last().source.0 <= votes.last().target.0
                    && votes.last().target.0 < votes[i].target.0))),
        spec_scan_surround(v, votes) matches Some(ev) ==> exists|i: int|
            0 <= i < votes.len() - 1
            && (forall|j: int| 0 <= j < i ==> !(
                (votes.last().source.0 < (#[trigger] votes[j]).source.0 && votes[j].source.0 <= votes[j].target.0
                    && votes[j].target.0 < votes.last().target.0)
                || (votes[j].source.0 < votes.last().source.0 && votes.last().source.0 <= votes.last().target.0
                    && votes.last().target.0 < votes[j].target.0)))
            && if votes.last().source.0 < (#[trigger] votes[i]).source.0 && votes[i].source.0 <= votes[i].target.0
                && votes[i].target.0 < votes.last().target.0 {
                ev == surround_evidence(v, votes.last(), votes[i])
            } else {
                votes[i].source.0 < votes.last().source.0 && votes.last().source.0 <= votes.last().target.0
                    && votes.last().target.0 < votes[i].target.0
                    && ev == surround_evidence(v, votes[i], votes.last())
            },
{
    if votes.len() >= 2 {
        let new = votes.last();
        let olds = votes.drop_last();
        lemma_scan_from_first(v, new, olds, 0);
        assert forall|k: int| 0 <= k < olds.len() implies olds[k] == #[trigger] votes[k] by {}
        if exists|i: int| 0 <= i < votes.len() - 1 && (
                (votes.last().source.0 < (#[trigger] votes[i]).source.0 && votes[i].source.0 <= votes[i].target.0
                    && votes[i].target.0 < votes.last().target.0)
                || (votes[i].source.0 < votes.last().source.0 && votes.last().source.0 <= votes.last().target.0
                    && votes.last().target.0 < votes[i].target.0)) {
            let i = choose|i: int| 0 <= i < votes.len() - 1 && (
                (votes.last().source.0 < (#[trigger] votes[i]).source.0 && votes[i].source.0 <= votes[i].target.0
                    && votes[i].target.0 < votes.last().target.0)
                || (votes[i].source.0 < votes.last().source.0 && votes.last().source.0 <= votes.last().target.0
                    && votes.last().target.0 < votes[i].target.0));
            assert(surround_pair(new, olds[i]));
        }
        if spec_scan_surround(v, votes) is Some {
            let k = choose|k: int| 0 <= k < olds.len() && #[trigger] surround_pair(new, olds[k])
                && (forall|j: int| 0 <= j < k ==> !surround_pair(new, #[trigger] olds[j]))
                && spec_scan_surround(v, votes)->0 == evidence_against(v, new, olds[k]);
            assert(votes[k] == olds[k]);
            assert forall|j: int| 0 <= j < k implies !(
                (votes.last().source.0 < (#[trigger] votes[j]).source.0 && votes[j].source.0 <= votes[j].target.0
                    && votes[j].target.0 < votes.last().target.0)
                || (votes[j].source.0 < votes.last().source.0 && votes.last().source.0 <= votes.last().target.0
                    && votes.last().target.0 < votes[j].target.0)) by {
                assert(votes[j] == olds[j]);
                assert(!surround_pair(new, olds[j]));
            }
        }
    }
}

/// Surround evidence is valid: the outer vote surrounds the inner one and
/// both are signed by the offender under the vote tag.
pub open spec fn spec_surround_valid(ev: SurroundVote, set: ValidatorSet) -> bool {
    let outer = VoteRecord { source: ev.a_source, target: ev.a_target, checkpoint: ev.a_checkpoint, sig: ev.a_sig };
    let inner = VoteRecord { source: ev.b_source, target: ev.b_target, checkpoint: ev.b_checkpoint, sig: ev.b_sig };
    &&& spec_surrounds(ev.a_source.0, ev.a_target.0, ev.b_source.0, ev.b_target.0)
    &&& signed_by(set, ev.validator, Dst::MacroVote, spec_vote_message(outer), ev.a_sig)
    &&& signed_by(set, ev.validator, Dst::MacroVote, spec_vote_message(inner), ev.b_sig)
}

/// Verify surround-vote evidence.
pub fn verify(ev: &SurroundVote, set: &ValidatorSet) -> (r: Result<(), Error>)
    ensures
        r is Ok <==> spec_surround_valid(*ev, *set),
        r matches Err(e) ==> e is InvalidConfig,
{
    if !surrounds(ev.a_source.0, ev.a_target.0, ev.b_source.0, ev.b_target.0) {
        return Err(Error::InvalidConfig("not a surround relation".to_owned()));
    }
    let outer = VoteRecord { source: ev.a_source, target: ev.a_target, checkpoint: ev.a_checkpoint, sig: ev.a_sig };
    let inner = VoteRecord { source: ev.b_source, target: ev.b_target, checkpoint: ev.b_checkpoint, sig: ev.b_sig };
    let msg_a = vote_message(&outer);
    if !check_signed(set, &ev.validator, Dst::MacroVote, &msg_a, &ev.a_sig) {
        return Err(Error::InvalidConfig("invalid vote sig".to_owned()));
    }
    let msg_b = vote_message(&inner);
    if !check_signed(set, &ev.validator, Dst::MacroVote, &msg_b, &ev.b_sig) {
        return Err(Error::InvalidConfig("invalid vote sig".to_owned()));
    }
    Ok(())
}

} // verus!
