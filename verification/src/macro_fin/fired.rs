//! Macro timers firing: the backup proposer's takeover and the Mode B deadline.
use vstd::prelude::*;
use crate::action::{Action, Actions};
use crate::config::Config;
use crate::crypto::Dst;
use crate::error::Result;
use crate::event::{BlsPartial, SubnetId, TimerId};
use crate::host_context::HostContext;
use crate::lock_macro::conflicts;
use crate::macro_fin::book::MacroBook;
use crate::macro_fin::messages::{checkpoint_message, proposer_message, spec_checkpoint_message, spec_partial_message};
use crate::macro_fin::proposer::{spec_round_robin, vrf_alpha, ProposerSchedule};
use crate::macro_fin::support::{active_mode, active_set, beacon_for_height, subnet_assign};
use crate::macro_fin::vote::{set_size_fits, spec_assign};
use crate::macro_fin::support::spec_active_mode;
use crate::types::crypto_types::Hash32;
use crate::macro_fin::timer::first_height_with;
use crate::types::crypto_types::{BlsSig, VrfProof};
use crate::ports::SignerPort;
use crate::types::validator::ValidatorSet;
use crate::types::macros::{AggregationMode, MacroCheckpoint, MacroProposal};
use crate::types::primitives::{Epoch, Height, ValidatorId};

verus! {

/// The signature this validator gives its proposal of `cp`.
pub open spec fn own_proposer_sig(ctx: &HostContext, self_id: ValidatorId, cp: MacroCheckpoint) -> BlsSig {
    ctx.signer.spec_sign(Dst::MacroProposerSig.bytes(), spec_partial_message(self_id, cp.hash))
}

/// Book fields a fired macro timer never touches.
pub open spec fn fired_frame(pre: MacroBook, post: MacroBook) -> bool {
    &&& post.self_id == pre.self_id
    &&& post.micro_ring == pre.micro_ring
    &&& post.next_height == pre.next_height
    &&& post.last_macro_hash == pre.last_macro_hash
    &&& post.candidate == pre.candidate
    &&& post.emitted_macro_qc == pre.emitted_macro_qc
    &&& post.two_chain == pre.two_chain
    &&& post.suppressed_conflicts == pre.suppressed_conflicts
    &&& post.subnet_aggs == pre.subnet_aggs
    &&& post.subnet_partials == pre.subnet_partials
    &&& post.votes == pre.votes
    &&& post.proposals_seen == pre.proposals_seen
    &&& post.rejected_crypto == pre.rejected_crypto
    &&& post.timers.seq == pre.timers.seq
}

/// The backup timer of height `h` fired: the timer is dropped and, when no
/// proposal was seen at `h`, a candidate exists and this validator is the
/// round-robin backup, it proposes the candidate.
pub open spec fn fired_backup(pre: MacroBook, post: MacroBook, before: Seq<Action>, after: Seq<Action>, ctx: &HostContext, ok: bool, h: Height) -> bool {
    let takes_over = !pre.proposal_seen@.contains(h) && pre.candidate@.contains_key(h)
        && (ctx.valset.spec_set_for(Epoch(0)) matches Some(s) && s.entries@.len() > 0
            && pre.self_id == spec_round_robin(s, h).backup);
    &&& fired_frame(pre, post)
    &&& post.timers.backup_by_height@ == pre.timers.backup_by_height@.remove(h.0)
    &&& post.timers.mode_b_by_height@ == pre.timers.mode_b_by_height@
    &&& post.locks == pre.locks
    &&& post.partials == pre.partials
    &&& post.partial_sigs == pre.partial_sigs
    &&& post.mode_b_active == pre.mode_b_active
    &&& (after.len() == before.len() + 1 ==> takes_over && (after.last() matches Action::BroadcastMacroProposal(mp)
        && mp.checkpoint == pre.candidate@[h] && mp.proposer == pre.self_id
        && mp.proposer_sig == own_proposer_sig(ctx, pre.self_id, pre.candidate@[h]))
        && post.proposal_seen@ == pre.proposal_seen@.insert(h))
    &&& (after.len() == before.len() ==> post.proposal_seen == pre.proposal_seen)
    &&& (ok && takes_over ==> after.len() == before.len() + 1)
    &&& (pre.proposal_seen@.contains(h) || !pre.candidate@.contains_key(h) ==> ok && after == before)
}

/// The Mode B deadline of height `h` fired: the timer is dropped, leaderless
/// aggregation starts at `h` unless its candidate already has an adopted QC,
/// and while it is active this validator locks to the candidate and
/// broadcasts its flat partial, if the lock allows it.
pub open spec fn fired_mode_b(pre: MacroBook, post: MacroBook, before: Seq<Action>, after: Seq<Action>, ctx: &HostContext, ok: bool, h: Height) -> bool {
    let has_cp = pre.candidate@.contains_key(h);
    let cp = pre.candidate@[h];
    let done = has_cp && pre.emitted_macro_qc@.contains(cp.hash);
    let votes = has_cp && post.mode_b_active@.contains(h) && !conflicts(pre.locks@, pre.self_id, h, cp.hash);
    &&& fired_frame(pre, post)
    &&& post.timers.mode_b_by_height@ == pre.timers.mode_b_by_height@.remove(h.0)
    &&& post.timers.backup_by_height@ == pre.timers.backup_by_height@
    &&& post.proposal_seen == pre.proposal_seen
    &&& post.mode_b_active@ == (if done { pre.mode_b_active@ } else { pre.mode_b_active@.insert(h) })
    &&& (votes ==> post.locks@ == pre.locks@.insert(pre.self_id, (h, cp.hash)))
    &&& (!votes ==> post.locks == pre.locks)
    &&& (after.len() == before.len() + 1 ==> votes && after.last() == Action::BroadcastBlsPartial(BlsPartial {
            subnet: SubnetId(0),
            validator: pre.self_id,
            checkpoint_hash: cp.hash,
            sig: ctx.signer.spec_sign(Dst::MacroCheckpoint.bytes(), spec_checkpoint_message(cp)),
        }) && post.partials@ == pre.partials@.insert((cp.hash, pre.self_id))
        && post.partial_sigs@ == pre.partial_sigs@.insert((cp.hash, pre.self_id), ctx.signer.spec_sign(Dst::MacroCheckpoint.bytes(), spec_checkpoint_message(cp))))
    &&& (after.len() == before.len() ==> post.partials == pre.partials && post.partial_sigs == pre.partial_sigs)
    &&& (ok && votes ==> after.len() == before.len() + 1)
    &&& (!votes ==> ok && after == before)
}

/// What a fired macro timer did: the first height, in table order, whose
/// backup timer is `id` gets the backup takeover; failing that, the first
/// height whose Mode B timer is `id` gets the Mode B start; any other id
/// changes nothing.
pub open spec fn macro_timer_handled(pre: MacroBook, post: MacroBook, before: Seq<Action>, after: Seq<Action>, ctx: &HostContext, id: TimerId, ok: bool) -> bool {
    &&& before.len() <= after.len() <= before.len() + 1
    &&& after.subrange(0, before.len() as int) == before
    &&& match first_height_with(pre.timers.backup_by_height.pairs(), id) {
        Some(h) => fired_backup(pre, post, before, after, ctx, ok, h),
        None => match first_height_with(pre.timers.mode_b_by_height.pairs(), id) {
            Some(h) => fired_mode_b(pre, post, before, after, ctx, ok, h),
            None => ok && post == pre && after == before,
        },
    }
}

/// A macro timer fired: the backup proposer takes over, or Mode B starts.
pub fn on_timer_fired(book: &mut MacroBook, cfg: &Config, ctx: &HostContext, id: TimerId, actions: &mut Actions) -> (r: Result<()>)
    requires
        old(book).wf(),
        set_size_fits(ctx),
    ensures
        final(book).wf(),
        macro_timer_handled(*old(book), *final(book), old(actions)@, final(actions)@, ctx, id, r is Ok),
        first_height_with(old(book).timers.backup_by_height.pairs(), id) is None && ctx.valset.spec_answers()
            && ctx.beacon.spec_answers() && ctx.valset.spec_set_for(Epoch(0)) is Some ==> r is Ok,
{
    let ghost pre = *book;
    let ghost before = actions@;
    if let Some(height) = book.timers.height_for_backup_timer(id) {
        book.timers.clear_backup(height);
        let r = backup_takeover(book, ctx, height, actions);
        assert(actions@.subrange(0, before.len() as int) =~= before);
        assert(fired_backup(pre, *book, before, actions@, ctx, r is Ok, height));
        return r;
    }
    if let Some(height) = book.timers.height_for_mode_b_timer(id) {
        book.timers.clear_mode_b(height);
        let r = mode_b_start(book, cfg, ctx, height, actions);
        assert(actions@.subrange(0, before.len() as int) =~= before);
        assert(fired_mode_b(pre, *book, before, actions@, ctx, r is Ok, height));
        return r;
    }
    assert(actions@.subrange(0, before.len() as int) =~= before);
    Ok(())
}

/// This validator takes over the proposal at `height` as its backup: no
/// proposal was seen there, a candidate exists, and it is the round-robin
/// backup of the non-empty set `set`.
pub open spec fn takes_over(book: MacroBook, set: ValidatorSet, height: Height) -> bool {
    &&& !book.proposal_seen@.contains(height)
    &&& book.candidate@.contains_key(height)
    &&& set.entries@.len() > 0
    &&& book.self_id == spec_round_robin(set, height).backup
}

/// Propose the candidate at `height` with the VRF proof `vrf_proof` when this
/// validator takes over there as the backup of `set`; else change nothing.
pub fn backup_takeover_step<S: SignerPort + ?Sized>(
    book: &mut MacroBook,
    set: &ValidatorSet,
    height: Height,
    vrf_proof: VrfProof,
    signer: &S,
    actions: &mut Actions,
) -> (took: bool)
    requires
        old(book).wf(),
    ensures
        final(book).wf(),
        took == takes_over(*old(book), *set, height),
        !took ==> *final(book) == *old(book) && final(actions)@ == old(actions)@,
        took ==> ({
            let cp = old(book).candidate@[height];
            &&& final(actions)@ == old(actions)@.push(Action::BroadcastMacroProposal(MacroProposal {
                    checkpoint: cp,
                    proposer: old(book).self_id,
                    vrf_proof,
                    proposer_sig: signer.spec_sign(Dst::MacroProposerSig.bytes(), spec_partial_message(old(book).self_id, cp.hash)),
                }))
            &&& *final(book) == (MacroBook { proposal_seen: final(book).proposal_seen, ..*old(book) })
            &&& final(book).proposal_seen@ == old(book).proposal_seen@.insert(height)
        }),
{
    if book.proposal_seen.contains(&height) {
        return false;
    }
    let Some(candidate) = book.candidate.get(&height) else {
        return false;
    };
    if set.entries.len() == 0 {
        return false;
    }
    let schedule = ProposerSchedule::round_robin(set, height);
    if !schedule.backup.same(&book.self_id) {
        return false;
    }
    let msg = proposer_message(&book.self_id, &candidate);
    let dst = Dst::MacroProposerSig.to_vec();
    let proposer_sig = signer.sign_bls(dst.as_slice(), msg.as_slice());
    actions.push(Action::BroadcastMacroProposal(MacroProposal {
        checkpoint: candidate,
        proposer: book.self_id,
        vrf_proof,
        proposer_sig,
    }));
    book.proposal_seen.insert(height);
    true
}

/// The backup proposer's takeover at `height` (its timer already dropped).
fn backup_takeover(book: &mut MacroBook, ctx: &HostContext, height: Height, actions: &mut Actions) -> (r: Result<()>)
    requires
        old(book).wf(),
        set_size_fits(ctx),
    ensures
        final(book).wf(),
        ({
            let pre = *old(book);
            let post = *final(book);
            let takes_over = !pre.proposal_seen@.contains(height) && pre.candidate@.contains_key(height)
                && (ctx.valset.spec_set_for(Epoch(0)) matches Some(s) && s.entries@.len() > 0
                    && pre.self_id == spec_round_robin(s, height).backup);
            &&& post == MacroBook { proposal_seen: post.proposal_seen, ..pre }
            &&& (final(actions)@ == old(actions)@ || final(actions)@.len() == old(actions)@.len() + 1)
            &&& final(actions)@.subrange(0, old(actions)@.len() as int) == old(actions)@
            &&& (final(actions)@.len() == old(actions)@.len() ==> post.proposal_seen == pre.proposal_seen)
            &&& (final(actions)@.len() == old(actions)@.len() + 1 ==> takes_over
                && (final(actions)@.last() matches Action::BroadcastMacroProposal(mp)
                    && mp.checkpoint == pre.candidate@[height] && mp.proposer == pre.self_id
                    && mp.proposer_sig == own_proposer_sig(ctx, pre.self_id, pre.candidate@[height]))
                && post.proposal_seen@ == pre.proposal_seen@.insert(height))
            &&& (r is Ok && takes_over ==> final(actions)@.len() == old(actions)@.len() + 1)
            &&& (pre.proposal_seen@.contains(height) || !pre.candidate@.contains_key(height) ==> r is Ok
                && final(actions)@ == old(actions)@)
        }),
{
    if book.proposal_seen.contains(&height) {
        return Ok(());
    }
    if !book.candidate.contains(&height) {
        return Ok(());
    }
    let set = active_set(ctx)?;
    let beacon = beacon_for_height(book, ctx, height)?;
    if set.entries.len() == 0 {
        return Ok(());
    }
    let schedule = ProposerSchedule::round_robin(&set, height);
    if !schedule.backup.same(&book.self_id) {
        return Ok(());
    }
    let alpha = vrf_alpha(&beacon, height, &book.self_id);
    let (vrf_proof, _) = ctx.signer.vrf_prove(alpha.as_slice())?;
    let ghost before = actions@;
    backup_takeover_step(book, &set, height, vrf_proof, ctx.signer, actions);
    assert(actions@.subrange(0, before.len() as int) =~= before);
    Ok(())
}

/// Sign the checkpoint `cp` of `height` and broadcast the own partial: on the
/// own subnet of the assignment drawn from `set` and `beacon` when Mode A is
/// active there, on subnet 0 otherwise.
pub fn mode_b_partial_step<S: SignerPort + ?Sized>(
    book: &mut MacroBook,
    cfg: &Config,
    set: &ValidatorSet,
    beacon: &Hash32,
    height: Height,
    cp: MacroCheckpoint,
    signer: &S,
    actions: &mut Actions,
)
    requires
        old(book).wf(),
        set.entries@.len() <= u32::MAX,
    ensures
        final(book).wf(),
        ({
            let pre = *old(book);
            let sig = signer.spec_sign(Dst::MacroCheckpoint.bytes(), spec_checkpoint_message(cp));
            let mode_a = spec_active_mode(pre, *cfg, set.entries@.len(), height) == AggregationMode::ModeASubnet;
            let subnet = if mode_a { SubnetId(spec_assign(*cfg, *set, *beacon).spec_index_for(pre.self_id) as u32) } else { SubnetId(0) };
            &&& *final(book) == (MacroBook { partials: final(book).partials, partial_sigs: final(book).partial_sigs, ..pre })
            &&& final(book).partials@ == pre.partials@.insert((cp.hash, pre.self_id))
            &&& final(book).partial_sigs@ == pre.partial_sigs@.insert((cp.hash, pre.self_id), sig)
            &&& final(actions)@ == old(actions)@.push(Action::BroadcastBlsPartial(BlsPartial {
                    subnet,
                    validator: pre.self_id,
                    checkpoint_hash: cp.hash,
                    sig,
                }))
        }),
{
    let assign = subnet_assign(cfg, set, beacon);
    let subnet = SubnetId(assign.index_for(&book.self_id));
    book.partials.insert((cp.hash, book.self_id));
    let checkpoint_msg = checkpoint_message(&cp);
    let dst = Dst::MacroCheckpoint.to_vec();
    let sig = signer.sign_bls(dst.as_slice(), checkpoint_msg.as_slice());
    book.partial_sigs.insert((cp.hash, book.self_id), sig);
    let mode_a = match active_mode(book, cfg, set, height) {
        AggregationMode::ModeASubnet => true,
        _ => false,
    };
    actions.push(Action::BroadcastBlsPartial(BlsPartial {
        subnet: if mode_a { subnet } else { SubnetId(0) },
        validator: book.self_id,
        checkpoint_hash: cp.hash,
        sig,
    }));
}

/// The Mode B deadline at `height` (its timer already dropped).
fn mode_b_start(book: &mut MacroBook, cfg: &Config, ctx: &HostContext, height: Height, actions: &mut Actions) -> (r: Result<()>)
    requires
        old(book).wf(),
        set_size_fits(ctx),
    ensures
        final(book).wf(),
        ({
            let pre = *old(book);
            let post = *final(book);
            let has_cp = pre.candidate@.contains_key(height);
            let cp = pre.candidate@[height];
            let done = has_cp && pre.emitted_macro_qc@.contains(cp.hash);
            let votes = has_cp && post.mode_b_active@.contains(height) && !conflicts(pre.locks@, pre.self_id, height, cp.hash);
            let sig = ctx.signer.spec_sign(Dst::MacroCheckpoint.bytes(), spec_checkpoint_message(cp));
            &&& post == MacroBook { mode_b_active: post.mode_b_active, locks: post.locks, partials: post.partials, partial_sigs: post.partial_sigs, ..pre }
            &&& post.mode_b_active@ == (if done { pre.mode_b_active@ } else { pre.mode_b_active@.insert(height) })
            &&& (votes ==> post.locks@ == pre.locks@.insert(pre.self_id, (height, cp.hash)))
            &&& (!votes ==> post.locks == pre.locks)
            &&& (final(actions)@ == old(actions)@ || final(actions)@ == old(actions)@.push(Action::BroadcastBlsPartial(BlsPartial {
                    subnet: SubnetId(0),
                    validator: pre.self_id,
                    checkpoint_hash: cp.hash,
                    sig,
                })))
            &&& (final(actions)@.len() == old(actions)@.len() + 1 ==> votes
                && post.partials@ == pre.partials@.insert((cp.hash, pre.self_id))
                && post.partial_sigs@ == pre.partial_sigs@.insert((cp.hash, pre.self_id), sig))
            &&& (final(actions)@.len() == old(actions)@.len() ==> post.partials == pre.partials && post.partial_sigs == pre.partial_sigs)
            &&& (!votes ==> r is Ok && final(actions)@ == old(actions)@)
            &&& (r is Ok && votes ==> final(actions)@.len() == old(actions)@.len() + 1)
        }),
        ctx.valset.spec_answers() && ctx.beacon.spec_answers() && ctx.valset.spec_set_for(Epoch(0)) is Some ==> r is Ok,
{
    let already_finalized = match book.candidate.get(&height) {
        Some(c) => book.emitted_macro_qc.contains(&c.hash),
        None => false,
    };
    if !already_finalized {
        book.mode_b_active.insert(height);
    }
    if !book.mode_b_active.contains(&height) {
        return Ok(());
    }
    let Some(cp) = book.candidate.get(&height) else {
        return Ok(());
    };
    let self_id = book.self_id;
    if book.locks.try_lock(self_id, height, cp.hash).is_err() {
        return Ok(());
    }
    let set = active_set(ctx)?;
    let beacon = beacon_for_height(book, ctx, height)?;
    mode_b_partial_step(book, cfg, &set, &beacon, height, cp, ctx.signer, actions);
    Ok(())
}

} // verus!
