//! Inbound macro proposals: screen the proposer, lock, and vote.
use vstd::prelude::*;
use crate::action::{produced, Action, Actions};
use crate::api::tier::BlobStatus;
use crate::codec::u64_le;
use crate::config::Config;
use crate::crypto::Dst;
use crate::error::Result;
use crate::event::{BlsPartial, SubnetId};
use crate::host_context::HostContext;
use crate::ports::SignerPort;
use crate::lock_macro::conflicts;
use crate::macro_fin::aggregation::mode_a_subnet::ModeASubnet;
use crate::macro_fin::aggregation::spec_ke;
use crate::macro_fin::aggregation::subnet::SubnetAssign;
use crate::macro_fin::aggregation::Ke;
use crate::macro_fin::book::MacroBook;
use crate::macro_fin::assemble::{agg_broadcast, aggregates_subnet};
use crate::macro_fin::aggregation::mode_a_subnet::spec_subnet_outcome;
use crate::macro_fin::support::subnet_signers_for;
use crate::macro_fin::messages::{checkpoint_message, spec_checkpoint_message, spec_partial_message, vote_message};
use crate::macro_fin::proposer::{spec_round_robin, ProposerSchedule};
use crate::macro_fin::support::{active_mode, active_set, beacon_for_height, blob_id_of_checkpoint, proposals_from, seen_from, spec_active_mode, spec_blob_id, subnet_assign, subnet_signers_of};
use crate::macro_fin::verify::{signed_by, verify_proposal};
use crate::macro_fin::vote_book::VoteRecord;
use crate::slashing::double_vote::{scan_for_double_vote, spec_scan_double};
use crate::slashing::equivocation::detect;
use crate::slashing::surround::{scan_for_surround, spec_scan_surround};
use crate::types::crypto_types::{BlsSig, Hash32};
use crate::types::macros::{AggregationMode, MacroProposal};
use crate::types::primitives::{Epoch, Height, ValidatorId};
use crate::types::slashing::{MacroEquivocation, SlashEvidence};
use crate::types::validator::{first_index_of, ValidatorSet};

verus! {

/// The set the port holds for epoch 0, if any, has a size that fits `u32`.
pub open spec fn set_size_fits(ctx: &HostContext) -> bool {
    ctx.valset.spec_set_for(Epoch(0)) matches Some(s) ==> s.entries@.len() <= u32::MAX
}

/// `x + 1`, wrapping to 0.
pub open spec fn wrapping_inc(x: u64) -> u64 {
    if x == u64::MAX { 0 } else { (x + 1) as u64 }
}

/// `x + 1`, saturating at `u64::MAX`.
pub open spec fn saturating_inc(x: u64) -> u64 {
    if x == u64::MAX { u64::MAX } else { (x + 1) as u64 }
}

/// Some earlier proposal in `seen` names another checkpoint than `p`.
pub open spec fn contradicts(seen: Seq<MacroProposal>, p: MacroProposal) -> bool {
    exists|i: int| 0 <= i < seen.len() && (#[trigger] seen[i]).checkpoint.hash != p.checkpoint.hash
}

/// Evidence that the proposer of `p` signed `first` and `p` at one height.
pub open spec fn equivocation_of(first: MacroProposal, p: MacroProposal) -> MacroEquivocation {
    MacroEquivocation {
        validator: p.proposer,
        a: (first.checkpoint, first.proposer_sig),
        b: (p.checkpoint, p.proposer_sig),
    }
}

/// The proposer's signature over `proposer || checkpoint_hash` verifies.
pub open spec fn proposal_signed(set: ValidatorSet, p: MacroProposal) -> bool {
    signed_by(set, p.proposer, Dst::MacroProposerSig, spec_partial_message(p.proposer, p.checkpoint.hash), p.proposer_sig)
}

/// Schedule, parent and local-candidate checks: outside Mode B only the
/// primary or backup may propose, the parent is the last adopted checkpoint,
/// and the checkpoint is the local candidate at its height.
pub open spec fn proposal_fits(book: MacroBook, cfg: Config, set: ValidatorSet, p: MacroProposal) -> bool {
    let h = p.checkpoint.height;
    let sched = spec_round_robin(set, h);
    &&& (spec_active_mode(book, cfg, set.entries@.len(), h) == AggregationMode::ModeBLeaderless
        || p.proposer == sched.primary || p.proposer == sched.backup)
    &&& p.checkpoint.parent == book.last_macro_hash
    &&& book.candidate@.contains_key(h)
    &&& book.candidate@[h].micro_root == p.checkpoint.micro_root
    &&& book.candidate@[h].hash == p.checkpoint.hash
}

/// The vote this validator records for `hash` at `height`: source `height - 1`
/// (saturating), target `height`, signed under the vote tag.
pub open spec fn own_vote<S: SignerPort + ?Sized>(signer: &S, height: Height, hash: Hash32) -> VoteRecord {
    let source = Epoch(if height.0 == 0 { 0 } else { (height.0 - 1) as u64 });
    let msg = u64_le(source.0) + u64_le(height.0) + hash.0@;
    VoteRecord {
        source,
        target: Epoch(height.0),
        checkpoint: hash,
        sig: signer.spec_sign(Dst::MacroVote.bytes(), msg),
    }
}

/// The subnet assignment for the set's size and `beacon`.
pub open spec fn spec_assign(cfg: Config, set: ValidatorSet, beacon: Hash32) -> SubnetAssign {
    SubnetAssign { k_e: Ke(spec_ke(cfg, set.entries@.len() as u32)), r_macro: beacon }
}

/// The partial this validator broadcasts for `p`: on its own subnet in Mode A,
/// on subnet 0 otherwise, signed over the checkpoint body.
pub open spec fn own_partial<S: SignerPort + ?Sized>(book: MacroBook, cfg: Config, set: ValidatorSet, beacon: Hash32, signer: &S, p: MacroProposal) -> BlsPartial {
    let mode = spec_active_mode(book, cfg, set.entries@.len(), p.checkpoint.height);
    BlsPartial {
        subnet: if mode == AggregationMode::ModeASubnet {
            SubnetId(spec_assign(cfg, set, beacon).spec_index_for(book.self_id) as u32)
        } else {
            SubnetId(0)
        },
        validator: book.self_id,
        checkpoint_hash: p.checkpoint.hash,
        sig: signer.spec_sign(Dst::MacroCheckpoint.bytes(), spec_checkpoint_message(p.checkpoint)),
    }
}

/// Slashing evidence against the own history: a surround, then a double vote.
pub open spec fn self_evidence(v: ValidatorId, votes: Seq<VoteRecord>) -> Seq<Action> {
    let sur = spec_scan_surround(v, votes);
    let dbl = spec_scan_double(v, votes);
    (if sur is Some {
        seq![Action::EmitSlashEvidence { offender: v, evidence: SlashEvidence::Surround(sur->0) }]
    } else {
        Seq::empty()
    }) + (if dbl is Some {
        seq![Action::EmitSlashEvidence { offender: v, evidence: SlashEvidence::DoubleVote(dbl->0) }]
    } else {
        Seq::empty()
    })
}

/// The actions of a vote: own slashing evidence, the partial, the soft
/// confirmation, and in Mode A possibly the subnet aggregate.
pub open spec fn vote_actions(actions: Seq<Action>, ev: Seq<Action>, partial: BlsPartial, p: MacroProposal, mode_a: bool) -> bool {
    let k = ev.len() as int;
    &&& actions.len() == k + 2 || (mode_a && actions.len() == k + 3)
    &&& actions.subrange(0, k) == ev
    &&& actions[k] == Action::BroadcastBlsPartial(partial)
    &&& actions[k + 1] matches Action::UpdateBlobStatus { blob, status } && blob.0@ == spec_blob_id(p.checkpoint)
        && status == BlobStatus::SoftConfirmed
    &&& actions.len() == k + 3 ==> (actions[k + 2] matches Action::BroadcastSubnetAggregate(a)
        && a.subnet == partial.subnet && a.checkpoint_hash == p.checkpoint.hash)
}

/// Whether some proposal in `seen` names another checkpoint than `p`.
fn first_contradiction(seen: &Vec<MacroProposal>, p: &MacroProposal) -> (r: bool)
    ensures
        r == contradicts(seen@, *p),
{
    let mut i: usize = 0;
    while i < seen.len()
        invariant
            0 <= i <= seen.len(),
            forall|j: int| 0 <= j < i ==> (#[trigger] seen@[j]).checkpoint.hash == p.checkpoint.hash,
        decreases seen.len() - i,
    {
        if !seen[i].checkpoint.hash.same(&p.checkpoint.hash) {
            assert(seen@[i as int].checkpoint.hash != p.checkpoint.hash);
            return true;
        }
        i = i + 1;
    }
    false
}

/// The book and actions of a vote for `p` cast from `pre`: the checkpoint is
/// adopted as candidate and justified, the backup timer of its height is
/// dropped, the own vote is recorded and the partial signed and emitted.
pub open spec fn vote_step<S: SignerPort + ?Sized>(pre: MacroBook, post: MacroBook, cfg: Config, set: ValidatorSet, beacon: Hash32, signer: &S, p: MacroProposal, actions: Seq<Action>) -> bool {
    let h = p.checkpoint.height;
    let hash = p.checkpoint.hash;
    let partial = own_partial(pre, cfg, set, beacon, signer, p);
    let mode_a = spec_active_mode(pre, cfg, set.entries@.len(), h) == AggregationMode::ModeASubnet;
    &&& post.self_id == pre.self_id
    &&& post.micro_ring == pre.micro_ring
    &&& post.next_height == pre.next_height
    &&& post.last_macro_hash == pre.last_macro_hash
    &&& post.candidate@ == pre.candidate@.insert(h, p.checkpoint)
    &&& post.candidate_beacon == pre.candidate_beacon
    &&& post.partials@ == pre.partials@.insert((hash, pre.self_id))
    &&& post.emitted_macro_qc == pre.emitted_macro_qc
    &&& (pre.two_chain@.contains_key(h) ==> post.two_chain@ == pre.two_chain@)
    &&& (!pre.two_chain@.contains_key(h) ==> post.two_chain@ == pre.two_chain@.insert(h, p.checkpoint))
    &&& post.two_chain.justified_head == (if post.two_chain@[h].hash == hash { Some(hash) } else { pre.two_chain.justified_head })
    &&& post.two_chain.finalized_head == pre.two_chain.finalized_head
    &&& post.locks == pre.locks
    &&& post.suppressed_conflicts == pre.suppressed_conflicts
    &&& post.proposal_seen@ == pre.proposal_seen@.insert(h)
    &&& post.mode_b_active == pre.mode_b_active
    &&& post.timers.backup_by_height@ == pre.timers.backup_by_height@.remove(h.0)
    &&& post.timers.mode_b_by_height@ == pre.timers.mode_b_by_height@
    &&& post.timers.seq == pre.timers.seq
    &&& post.subnet_aggs == pre.subnet_aggs
    &&& (mode_a ==> post.subnet_partials@ == pre.subnet_partials@.insert(((hash, partial.subnet), pre.self_id)))
    &&& (!mode_a ==> post.subnet_partials == pre.subnet_partials)
    &&& post.votes.log@ == pre.votes.log@.push((pre.self_id, own_vote(signer, h, hash)))
    &&& post.partial_sigs@ == pre.partial_sigs@.insert((hash, pre.self_id), partial.sig)
    &&& post.proposals_seen == pre.proposals_seen
    &&& post.rejected_crypto == pre.rejected_crypto
    &&& post.unfinalized_windows == pre.unfinalized_windows
    &&& post.leak_notified == pre.leak_notified
    &&& vote_actions(actions, self_evidence(pre.self_id, post.votes.spec_votes_of(pre.self_id)), partial, p, mode_a)
    &&& ({
        let k = self_evidence(pre.self_id, post.votes.spec_votes_of(pre.self_id)).len() as int;
        let assign = spec_assign(cfg, set, beacon);
        let signers = subnet_signers_for(post.subnet_partials@, hash, partial.subnet);
        &&& (actions.len() == k + 3 <==> mode_a && agg_broadcast(post, set, assign, hash, partial.subnet))
        &&& (actions.len() == k + 3 ==> (actions[k + 2] matches Action::BroadcastSubnetAggregate(a)
            && spec_subnet_outcome(hash, partial.subnet, signers, signers.len(), set, assign, post.partial_sigs@)
                == Some((a.agg.sig.0@, a.agg.bitmap@))))
    })
}

/// Lock succeeded: record the vote, sign the partial, and emit it.
fn cast_vote<S: SignerPort + ?Sized>(
    book: &mut MacroBook,
    cfg: &Config,
    set: &ValidatorSet,
    beacon: &Hash32,
    p: MacroProposal,
    signer: &S,
) -> (actions: Actions)
    requires
        old(book).wf(),
        set.entries@.len() <= u32::MAX,
    ensures
        final(book).wf(),
        vote_step(*old(book), *final(book), *cfg, *set, *beacon, signer, p, actions@),
{
    let ghost pre = *book;
    let height = p.checkpoint.height;
    let hash = p.checkpoint.hash;
    let mode = active_mode(book, cfg, set, height);
    book.proposal_seen.insert(height);
    book.timers.clear_backup(height);
    book.two_chain.adopt(p.checkpoint);
    book.candidate.insert(height, p.checkpoint);
    book.partials.insert((hash, book.self_id));

    let source = Epoch(height.0.saturating_sub(1));
    let unsigned = VoteRecord { source, target: Epoch(height.0), checkpoint: hash, sig: BlsSig([0u8; 96]) };
    let vote_msg = vote_message(&unsigned);
    let vote_dst = Dst::MacroVote.to_vec();
    let vote_sig = signer.sign_bls(vote_dst.as_slice(), vote_msg.as_slice());
    let vote = VoteRecord { source, target: Epoch(height.0), checkpoint: hash, sig: vote_sig };
    assert(vote == own_vote(signer, height, hash));
    book.votes.record(book.self_id, vote);

    let mut actions: Actions = Vec::new();
    let sur = scan_for_surround(&book.votes, &book.self_id);
    if let Ok(Some(ev)) = sur {
        actions.push(Action::EmitSlashEvidence { offender: book.self_id, evidence: SlashEvidence::Surround(ev) });
    }
    let dbl = scan_for_double_vote(&book.votes, &book.self_id);
    if let Ok(Some(ev)) = dbl {
        actions.push(Action::EmitSlashEvidence { offender: book.self_id, evidence: SlashEvidence::DoubleVote(ev) });
    }
    let ghost ev = actions@;
    assert(ev =~= self_evidence(pre.self_id, book.votes.spec_votes_of(pre.self_id)));

    let assign = subnet_assign(cfg, set, beacon);
    let subnet = SubnetId(assign.index_for(&book.self_id));
    let checkpoint_msg = checkpoint_message(&p.checkpoint);
    let cp_dst = Dst::MacroCheckpoint.to_vec();
    let sig = signer.sign_bls(cp_dst.as_slice(), checkpoint_msg.as_slice());
    book.partial_sigs.insert((hash, book.self_id), sig);
    let mode_a = match mode {
        AggregationMode::ModeASubnet => true,
        _ => false,
    };
    let partial = BlsPartial {
        subnet: if mode_a { subnet } else { SubnetId(0) },
        validator: book.self_id,
        checkpoint_hash: hash,
        sig,
    };
    assert(partial == own_partial(pre, *cfg, *set, *beacon, signer, p));
    actions.push(Action::BroadcastBlsPartial(partial));
    let blob = blob_id_of_checkpoint(&p.checkpoint);
    actions.push(Action::UpdateBlobStatus { blob, status: BlobStatus::SoftConfirmed });
    assert(actions@.subrange(0, ev.len() as int) =~= ev);

    if mode_a {
        book.subnet_partials.insert(((hash, subnet), book.self_id));
        let signers = subnet_signers_of(book, &hash, subnet);
        proof {
            signers.lemma_len();
        }
        let built = ModeASubnet::try_build_aggregate(hash, subnet, &signers, set, &assign, &book.partial_sigs);
        let mine = aggregates_subnet(subnet, set, &assign, &book.self_id);
        if let Some(agg) = built {
            if mine {
                let ghost before = actions@;
                actions.push(Action::BroadcastSubnetAggregate(agg));
                assert(actions@.subrange(0, ev.len() as int) =~= before.subrange(0, ev.len() as int));
            }
        }
    }
    actions
}

/// What an inbound proposal does to the book, given the epoch-0 set and the
/// beacon frozen for its height. An unsigned proposal only counts as rejected
/// crypto. A signed one from a proposer already seen at that height is
/// answered with equivocation evidence when some earlier one names another
/// checkpoint, else with nothing. A fresh one is recorded; it draws a vote
/// only when it fits the schedule, parent and local candidate and the lock
/// allows it, and a lock refusal is counted.
pub open spec fn proposal_outcome<S: SignerPort + ?Sized>(pre: MacroBook, post: MacroBook, cfg: Config, set: ValidatorSet, beacon: Hash32, signer: &S, p: MacroProposal, acts: Seq<Action>) -> bool {
    let h = p.checkpoint.height;
    let seen = seen_from(pre.proposals_seen@, h, p.proposer);
    if !proposal_signed(set, p) {
        post == (MacroBook { rejected_crypto: wrapping_inc(pre.rejected_crypto), ..pre }) && acts.len() == 0
    } else if seen.len() > 0 {
        &&& post == pre
        &&& acts == (if contradicts(seen, p) {
                seq![Action::EmitSlashEvidence {
                    offender: p.proposer,
                    evidence: SlashEvidence::MacroEquivocation(equivocation_of(seen[0], p)),
                }]
            } else {
                Seq::empty()
            })
    } else if !proposal_fits(pre, cfg, set, p) {
        &&& post == (MacroBook { proposals_seen: post.proposals_seen, ..pre })
        &&& post.proposals_seen@ == pre.proposals_seen@.push(p)
        &&& acts.len() == 0
    } else if conflicts(pre.locks@, pre.self_id, h, p.checkpoint.hash) {
        &&& post == (MacroBook {
                proposals_seen: post.proposals_seen,
                suppressed_conflicts: saturating_inc(pre.suppressed_conflicts),
                ..pre
            })
        &&& post.proposals_seen@ == pre.proposals_seen@.push(p)
        &&& acts.len() == 0
    } else {
        &&& post.proposals_seen@ == pre.proposals_seen@.push(p)
        &&& post.locks@ == pre.locks@.insert(pre.self_id, (h, p.checkpoint.hash))
        &&& vote_step(MacroBook { proposals_seen: post.proposals_seen, locks: post.locks, ..pre }, post, cfg, set, beacon, signer, p, acts)
    }
}

/// A validator locked to one checkpoint at a height never votes for another
/// checkpoint at that height: deciding such a proposal emits no partial and
/// leaves the lock, the partial signatures and the vote history as they were.
pub proof fn lemma_lock_blocks_conflicting_vote<S: SignerPort + ?Sized>(
    pre: MacroBook,
    post: MacroBook,
    cfg: Config,
    set: ValidatorSet,
    beacon: Hash32,
    signer: &S,
    p: MacroProposal,
    acts: Seq<Action>,
)
    requires
        proposal_outcome(pre, post, cfg, set, beacon, signer, p, acts),
        pre.locks@.contains_key(pre.self_id),
        pre.locks@[pre.self_id].0 == p.checkpoint.height,
        pre.locks@[pre.self_id].1 != p.checkpoint.hash,
    ensures
        forall|k: int| 0 <= k < acts.len() ==> !(#[trigger] acts[k] is BroadcastBlsPartial),
        post.locks == pre.locks,
        post.partial_sigs == pre.partial_sigs,
        post.votes == pre.votes,
{
}

/// Decide an inbound macro proposal against the epoch-0 set `set` and the
/// beacon `beacon` frozen for its height: drop it unless the proposer's
/// signature verifies; answer a second, different proposal from the same
/// proposer at the same height with equivocation evidence; ignore repeats;
/// then, when the schedule, parent and local candidate agree and the macro
/// lock allows it, adopt the checkpoint, record and sign the own vote, and
/// broadcast the partial.
pub fn decide_macro_proposal<S: SignerPort + ?Sized>(
    book: &mut MacroBook,
    cfg: &Config,
    set: &ValidatorSet,
    beacon: &Hash32,
    p: MacroProposal,
    signer: &S,
) -> (actions: Actions)
    requires
        old(book).wf(),
        set.entries@.len() <= u32::MAX,
    ensures
        final(book).wf(),
        proposal_outcome(*old(book), *final(book), *cfg, *set, *beacon, signer, p, actions@),
{
    let height = p.checkpoint.height;
    if !verify_proposal(set, &p) {
        book.rejected_crypto = book.rejected_crypto.wrapping_add(1);
        return Vec::new();
    }
    proof {
        let ids = set.ids();
        if !(exists|i: int| 0 <= i < ids.len() && ids[i] == p.proposer) {
            assert(first_index_of(ids, p.proposer) is None);
        }
        let w = choose|i: int| 0 <= i < ids.len() && ids[i] == p.proposer;
        assert(ids.len() == set.entries@.len());
    }
    let seen = proposals_from(book, height, &p.proposer);
    if first_contradiction(&seen, &p) {
        let first = seen[0];
        let mut actions: Actions = Vec::new();
        actions.push(Action::EmitSlashEvidence {
            offender: p.proposer,
            evidence: SlashEvidence::MacroEquivocation(detect(p.proposer, first, p)),
        });
        return actions;
    }
    if seen.len() > 0 {
        return Vec::new();
    }
    book.proposals_seen.push(p);

    let schedule = ProposerSchedule::round_robin(set, height);
    let mode = active_mode(book, cfg, set, height);
    let mode_b = match mode {
        AggregationMode::ModeBLeaderless => true,
        _ => false,
    };
    if !mode_b && !p.proposer.same(&schedule.primary) && !p.proposer.same(&schedule.backup) {
        return Vec::new();
    }
    if !p.checkpoint.parent.same(&book.last_macro_hash) {
        return Vec::new();
    }
    match book.candidate.get(&height) {
        Some(c) => {
            if !c.micro_root.same(&p.checkpoint.micro_root) || !c.hash.same(&p.checkpoint.hash) {
                return Vec::new();
            }
        },
        None => {
            return Vec::new();
        },
    }
    let self_id = book.self_id;
    if book.locks.try_lock(self_id, height, p.checkpoint.hash).is_err() {
        book.suppressed_conflicts = book.suppressed_conflicts.saturating_add(1);
        return Vec::new();
    }
    cast_vote(book, cfg, set, beacon, p, signer)
}

/// What handling an inbound proposal did: without an epoch-0 set it fails;
/// a failure changes nothing; on success the beacon for the proposal's height
/// is frozen (the current one, unless one was frozen already) and the proposal
/// is decided against the set and that beacon.
pub open spec fn macro_proposal_handled(pre: MacroBook, post: MacroBook, cfg: Config, ctx: &HostContext, p: MacroProposal, r: Result<Actions>) -> bool {
    let h = p.checkpoint.height;
    let frozen = if pre.candidate_beacon@.contains_key(h) { pre.candidate_beacon@[h] } else { ctx.beacon.spec_current() };
    let mid = MacroBook { candidate_beacon: post.candidate_beacon, ..pre };
    &&& (ctx.valset.spec_set_for(Epoch(0)) is None ==> r is Err)
    &&& (r is Err ==> post == pre)
    &&& (r is Ok ==> {
        &&& ctx.valset.spec_set_for(Epoch(0)) is Some
        &&& mid.candidate_beacon@ == pre.candidate_beacon@.insert(h, frozen)
        &&& proposal_outcome(mid, post, cfg, ctx.valset.spec_set_for(Epoch(0))->0, frozen, ctx.signer, p, produced(r))
    })
}

/// The lock holds through the proposal handler: a validator locked to one
/// checkpoint at a height answers a proposal of another checkpoint at that
/// height with no partial and no blob status, whatever the host answered;
/// its lock, partial signatures and votes stay, and at most one more lock
/// refusal is counted.
pub proof fn lemma_handler_keeps_lock(pre: MacroBook, post: MacroBook, cfg: Config, ctx: &HostContext, p: MacroProposal, r: Result<Actions>)
    requires
        macro_proposal_handled(pre, post, cfg, ctx, p, r),
        pre.locks@.contains_key(pre.self_id),
        pre.locks@[pre.self_id].0 == p.checkpoint.height,
        pre.locks@[pre.self_id].1 != p.checkpoint.hash,
    ensures
        forall|k: int| 0 <= k < produced(r).len() ==> !(#[trigger] produced(r)[k] is BroadcastBlsPartial)
            && !(produced(r)[k] is UpdateBlobStatus),
        post.locks == pre.locks,
        post.partial_sigs == pre.partial_sigs,
        post.votes == pre.votes,
        post.suppressed_conflicts <= pre.suppressed_conflicts + 1,
{
}

/// Handle an inbound macro proposal: read the epoch-0 set, freeze the
/// current beacon for the proposal's height if none is frozen yet, and decide
/// the proposal against both (see `decide_macro_proposal`).
pub fn on_macro_proposal(book: &mut MacroBook, cfg: &Config, p: MacroProposal, ctx: &HostContext) -> (r: Result<Actions>)
    requires
        old(book).wf(),
        set_size_fits(ctx),
    ensures
        final(book).wf(),
        macro_proposal_handled(*old(book), *final(book), *cfg, ctx, p, r),
        ctx.valset.spec_answers() && ctx.beacon.spec_answers() && ctx.valset.spec_set_for(Epoch(0)) is Some ==> r is Ok,
{
    let set = active_set(ctx)?;
    let height = p.checkpoint.height;
    if !book.candidate_beacon.contains(&height) {
        let b = ctx.beacon.current()?;
        book.candidate_beacon.insert(height, b);
    }
    let beacon = beacon_for_height(book, ctx, height)?;
    proof {
        assert(book.candidate_beacon@ =~= old(book).candidate_beacon@.insert(height, beacon));
    }
    Ok(decide_macro_proposal(book, cfg, &set, &beacon, p, ctx.signer))
}

} // verus!
