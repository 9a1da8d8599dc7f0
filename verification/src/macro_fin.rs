//! L3 macro-finality.
pub mod aggregation;
pub mod assemble;
pub mod book;
pub mod checkpoint;
pub mod fired;
pub mod macro_qc;
pub mod messages;
pub mod proposer;
pub mod support;
pub mod timer;
pub mod two_chain;
pub mod verify;
pub mod vote;
pub mod vote_book;
pub mod window;

pub use crate::macro_fin::assemble::{on_bls_partial, on_subnet_aggregate};
pub use crate::macro_fin::fired::on_timer_fired;
pub use crate::macro_fin::vote::on_macro_proposal;
pub use crate::macro_fin::aggregation::{compute_ke, mode_a_active, select_mode, Ke};
pub use crate::macro_fin::book::MacroBook;
pub use crate::macro_fin::checkpoint::CheckpointBuilder;
pub use crate::macro_fin::macro_qc::MacroQcAssembler;
pub use crate::macro_fin::proposer::ProposerSchedule;
pub use crate::macro_fin::two_chain::TwoChainRule;
pub use crate::macro_fin::vote_book::VoteBook;
pub use crate::macro_fin::window::MacroWindow;
use vstd::prelude::*;
use crate::action::{produced, Action, Actions};
use crate::api::tier::BlobStatus;
use crate::config::Config;
use crate::error::Result;
use crate::host_context::HostContext;
use crate::macro_fin::support::{active_set, blob_id_of_checkpoint, find_candidate, is_first_candidate, note_inactivity_leak_on_adoption, spec_blob_id};
use crate::macro_fin::verify::{spec_qc_valid, verify_macro_qc};
use crate::types::primitives::Epoch;
use crate::table::KeySet;
use crate::types::macros::{AggregationMode, MacroCheckpoint, MacroProposal, MacroQc};
use crate::macro_fin::macro_qc::qc_matches;
use crate::types::crypto_types::Hash32;
use crate::crypto::Dst;
use crate::macro_fin::proposer::{spec_round_robin, vrf_alpha};
use crate::types::validator::ValidatorSet;
use crate::macro_fin::book::micro_root_of_ring;
use crate::macro_fin::vote::wrapping_inc;
use crate::macro_fin::two_chain::adopt_step;
use crate::types::primitives::{Height, ValidatorId};
use crate::types::crypto_types::VrfProof;
use crate::macro_fin::timer::MacroTimerBook;
use crate::leader::timeout::next_id;
use crate::event::TimerId;
use crate::ports::SignerPort;
use crate::macro_fin::messages::spec_partial_message;

verus! {

/// The height after `h` (wrapping after `u64::MAX`).
pub open spec fn next_height_after(h: Height) -> Height {
    Height(if h.0 == u64::MAX { 0 } else { (h.0 + 1) as u64 })
}

/// The actions every adoption starts with: broadcast, persist, mark justified.
pub open spec fn adoption_prefix(actions: Seq<Action>, candidate: MacroCheckpoint, qc: MacroQc) -> bool {
    &&& actions.len() >= 4
    &&& actions[0] matches Action::BroadcastMacroQc(q) && q.same_as(&qc)
    &&& actions[1] == Action::PersistMacroCheckpoint(candidate)
    &&& actions[2] matches Action::PersistMacroQc(q) && q.same_as(&qc)
    &&& actions[3] matches Action::UpdateBlobStatus { blob, status } && blob.0@ == spec_blob_id(candidate)
        && status == BlobStatus::Justified
}

/// The actions adopt `candidate` under the QC they broadcast first: a QC for
/// `h` in `mode` whose aggregate is `outcome`.
pub open spec fn adopts_with(actions: Seq<Action>, candidate: MacroCheckpoint, h: Hash32, mode: AggregationMode, outcome: Option<(Seq<u8>, Seq<u8>)>) -> bool {
    &&& actions.len() >= 4
    &&& actions[0] matches Action::BroadcastMacroQc(q) && qc_matches(q, h, mode, outcome) && adoption_prefix(actions, candidate, q)
}

/// Book fields an adoption leaves alone.
pub open spec fn adoption_frame(pre: MacroBook, post: MacroBook) -> bool {
    &&& post.self_id == pre.self_id
    &&& post.micro_ring == pre.micro_ring
    &&& post.candidate == pre.candidate
    &&& post.candidate_beacon == pre.candidate_beacon
    &&& post.partials == pre.partials
    &&& post.locks == pre.locks
    &&& post.suppressed_conflicts == pre.suppressed_conflicts
    &&& post.mode_b_active == pre.mode_b_active
    &&& post.subnet_aggs == pre.subnet_aggs
    &&& post.subnet_partials == pre.subnet_partials
    &&& post.votes == pre.votes
    &&& post.partial_sigs == pre.partial_sigs
    &&& post.proposals_seen == pre.proposals_seen
    &&& post.rejected_crypto == pre.rejected_crypto
    &&& post.timers.seq == pre.timers.seq
}

/// The book moved from `pre` to `post` by adopting `candidate` at `height`
/// under a QC for `qc_hash`.
pub open spec fn adoption_step(pre: MacroBook, post: MacroBook, height: Height, candidate: MacroCheckpoint, qc_hash: Hash32) -> bool {
    &&& adoption_frame(pre, post)
    &&& post.emitted_macro_qc@ == pre.emitted_macro_qc@.insert(qc_hash)
    &&& post.last_macro_hash == candidate.hash
    &&& post.next_height == next_height_after(height)
    &&& post.proposal_seen@ == pre.proposal_seen@.insert(height)
    &&& post.timers.backup_by_height@ == pre.timers.backup_by_height@.remove(height.0)
    &&& post.timers.mode_b_by_height@ == pre.timers.mode_b_by_height@.remove(height.0)
    &&& (pre.two_chain@.contains_key(candidate.height) ==> post.two_chain@ == pre.two_chain@)
    &&& (!pre.two_chain@.contains_key(candidate.height) ==> post.two_chain@ == pre.two_chain@.insert(candidate.height, candidate))
}

/// What an adoption of `candidate` does after the book moved: with `t1` the
/// 2-chain rule right after adopting (view and justified head as in `post`,
/// finality as before), a predecessor that `t1` newly finalizes is marked
/// finalized and, when it is a candidate, its blob is reported finalized; the
/// inactivity-leak streak resets on finality, else it counts this window and
/// the leak is announced once, when the streak first reaches the trigger.
/// `rest` is the action list after the adoption's fixed first actions.
pub open spec fn finality_step(pre: MacroBook, post: MacroBook, cfg: Config, candidate: MacroCheckpoint, rest: Seq<Action>) -> bool {
    let t1 = TwoChainRule { finalized_head: pre.two_chain.finalized_head, ..post.two_chain };
    let fin = t1.spec_newly_finalized();
    let w: u32 = if pre.unfinalized_windows == u32::MAX { u32::MAX } else { (pre.unfinalized_windows + 1) as u32 };
    let announce = fin is None && w >= cfg.macro_fin.inactivity_leak_trigger_windows && !pre.leak_notified;
    let leak: Seq<Action> = if announce {
        seq![Action::NotifyInactivityLeak { windows: w, bps_per_window: cfg.macro_fin.inactivity_leak_bps_per_window }]
    } else {
        Seq::empty()
    };
    &&& adopt_step(pre.two_chain, t1, candidate)
    &&& post.two_chain.finalized_head == (match fin {
            Some(prev) => Some(t1@[prev].hash),
            None => pre.two_chain.finalized_head,
        })
    &&& post.unfinalized_windows == (if fin is Some { 0u32 } else { w })
    &&& post.leak_notified == (if fin is Some { false } else { pre.leak_notified || announce })
    &&& rest.len() >= leak.len()
    &&& rest.subrange(0, leak.len() as int) == leak
    &&& (if fin is Some && pre.candidate@.contains_key(fin->0) {
            &&& rest.len() == leak.len() + 1
            &&& rest.last() matches Action::UpdateBlobStatus { blob, status }
                && blob.0@ == spec_blob_id(pre.candidate@[fin->0]) && status == BlobStatus::Finalized
        } else {
            rest.len() == leak.len()
        })
}

/// Adopt `candidate` at `height` with `qc`: record it, move the 2-chain
/// head, advance to the next height, broadcast and persist, and report a
/// newly finalized predecessor.
pub(crate) fn finish_macro_qc_adoption(
    book: &mut MacroBook,
    cfg: &Config,
    height: Height,
    candidate: MacroCheckpoint,
    qc: MacroQc,
) -> (actions: Actions)
    requires
        old(book).wf(),
    ensures
        final(book).wf(),
        adoption_step(*old(book), *final(book), height, candidate, qc.checkpoint_hash),
        adoption_prefix(actions@, candidate, qc),
        finality_step(*old(book), *final(book), *cfg, candidate, actions@.subrange(4, actions@.len() as int)),
{
    let ghost pre = *book;
    book.emitted_macro_qc.insert(qc.checkpoint_hash);
    book.last_macro_hash = candidate.hash;
    book.next_height = Height(height.0.wrapping_add(1));
    book.proposal_seen.insert(height);
    book.timers.clear_backup(height);
    book.timers.clear_mode_b(height);

    let mut actions: Actions = Vec::new();
    let persisted = qc.duplicate();
    let blob = blob_id_of_checkpoint(&candidate);
    actions.push(Action::BroadcastMacroQc(qc));
    actions.push(Action::PersistMacroCheckpoint(candidate));
    actions.push(Action::PersistMacroQc(persisted));
    actions.push(Action::UpdateBlobStatus { blob, status: BlobStatus::Justified });
    let ghost prefix = actions@;
    let ghost mid = *book;
    settle_adoption(book, cfg, candidate, &mut actions);
    assert(actions@.subrange(0, 4) == prefix.subrange(0, 4));
    assert(actions@[0] == prefix[0] && actions@[1] == prefix[1] && actions@[2] == prefix[2] && actions@[3] == prefix[3]);
    assert(finality_step(mid, *book, *cfg, candidate, actions@.subrange(4, actions@.len() as int)));
    assert(mid.two_chain == pre.two_chain && mid.candidate == pre.candidate);
    actions
}

/// Adopt `candidate` into the 2-chain rule, account the inactivity-leak streak
/// and mark a newly finalized predecessor (see `finality_step`).
fn settle_adoption(book: &mut MacroBook, cfg: &Config, candidate: MacroCheckpoint, actions: &mut Actions)
    requires
        old(book).wf(),
    ensures
        final(book).wf(),
        *final(book) == (MacroBook {
            two_chain: final(book).two_chain,
            unfinalized_windows: final(book).unfinalized_windows,
            leak_notified: final(book).leak_notified,
            ..*old(book)
        }),
        final(actions)@.len() >= old(actions)@.len(),
        final(actions)@.subrange(0, old(actions)@.len() as int) == old(actions)@,
        finality_step(*old(book), *final(book), *cfg, candidate,
            final(actions)@.subrange(old(actions)@.len() as int, final(actions)@.len() as int)),
{
    let ghost pre = *book;
    let ghost before = actions@;
    book.two_chain.adopt(candidate);
    let ghost t1 = book.two_chain;
    let finalized_this_step = book.two_chain.newly_finalized_height().is_some();
    note_inactivity_leak_on_adoption(book, cfg, actions, finalized_this_step);
    let ghost after_leak = actions@;
    if let Some(prev) = book.two_chain.newly_finalized_height() {
        book.two_chain.mark_finalized(prev);
        if let Some(prev_cp) = book.candidate.get(&prev) {
            let blob = blob_id_of_checkpoint(&prev_cp);
            actions.push(Action::UpdateBlobStatus { blob, status: BlobStatus::Finalized });
        }
    }
    proof {
        let t1c = TwoChainRule { finalized_head: pre.two_chain.finalized_head, ..book.two_chain };
        assert(t1c@ == t1@);
        assert(t1c.spec_newly_finalized() == t1.spec_newly_finalized());
        let rest = actions@.subrange(before.len() as int, actions@.len() as int);
        assert(after_leak.subrange(0, before.len() as int) == before);
        assert(actions@.subrange(0, after_leak.len() as int) =~= after_leak);
        assert(actions@.subrange(0, before.len() as int) =~= before);
        assert(rest.subrange(0, after_leak.len() - before.len()) =~= after_leak.subrange(before.len() as int, after_leak.len() as int));
        let fin = t1c.spec_newly_finalized();
        let w: u32 = if pre.unfinalized_windows == u32::MAX { u32::MAX } else { (pre.unfinalized_windows + 1) as u32 };
        let announce = fin is None && w >= cfg.macro_fin.inactivity_leak_trigger_windows && !pre.leak_notified;
        assert(adopt_step(pre.two_chain, t1c, candidate));
        assert(book.unfinalized_windows == (if fin is Some { 0u32 } else { w }));
        assert(book.leak_notified == (if fin is Some { false } else { pre.leak_notified || announce }));
        assert(book.two_chain.finalized_head == (match fin {
            Some(prev) => Some(t1c@[prev].hash),
            None => pre.two_chain.finalized_head,
        }));
        let leak: Seq<Action> = if announce {
            seq![Action::NotifyInactivityLeak { windows: w, bps_per_window: cfg.macro_fin.inactivity_leak_bps_per_window }]
        } else {
            Seq::empty()
        };
        if announce {
            assert(after_leak == before.push(leak[0]));
        } else {
            assert(after_leak == before);
        }
        assert(after_leak.subrange(before.len() as int, after_leak.len() as int) =~= leak);
        assert(rest.subrange(0, leak.len() as int) == leak);
        if fin is Some && pre.candidate@.contains_key(fin->0) {
            assert(actions@.len() == after_leak.len() + 1);
            assert(rest.last() == actions@.last());
        } else {
            assert(actions@ == after_leak);
        }
    }
}

/// What a received QC does to the book once the epoch-0 set is known: nothing
/// for a hash already adopted or matching no candidate; a count of rejected
/// crypto when its aggregate does not verify over the first candidate with
/// that hash; else that candidate is adopted, persisted and marked justified.
pub open spec fn qc_receipt(pre: MacroBook, post: MacroBook, cfg: Config, set: ValidatorSet, qc: MacroQc, acts: Seq<Action>) -> bool {
    let h = qc.checkpoint_hash;
    if pre.emitted_macro_qc@.contains(h) || !(exists|x: Height| is_first_candidate(pre.candidate@, h, x)) {
        post == pre && acts.len() == 0
    } else {
        let x = choose|x: Height| is_first_candidate(pre.candidate@, h, x);
        let cand = pre.candidate@[x];
        if !spec_qc_valid(set, qc, cand) {
            post == (MacroBook { rejected_crypto: wrapping_inc(pre.rejected_crypto), ..pre }) && acts.len() == 0
        } else {
            &&& adoption_step(pre, post, x, cand, h)
            &&& acts.len() >= 3
            &&& finality_step(pre, post, cfg, cand, acts.subrange(3, acts.len() as int))
            &&& acts[0] == Action::PersistMacroCheckpoint(cand)
            &&& acts[1] matches Action::PersistMacroQc(q) && q.same_as(&qc)
            &&& acts[2] matches Action::UpdateBlobStatus { blob, status } && blob.0@ == spec_blob_id(cand)
                && status == BlobStatus::Justified
        }
    }
}

/// Merge a received MacroQc against the epoch-0 set `set`: adopt its
/// checkpoint when it is a known candidate and the aggregate verifies.
pub fn receive_macro_qc(book: &mut MacroBook, cfg: &Config, set: &ValidatorSet, qc: MacroQc) -> (actions: Actions)
    requires
        old(book).wf(),
    ensures
        final(book).wf(),
        qc_receipt(*old(book), *final(book), *cfg, *set, qc, actions@),
{
    if book.emitted_macro_qc.contains(&qc.checkpoint_hash) {
        return Vec::new();
    }
    let Some((height, candidate)) = find_candidate(book, &qc.checkpoint_hash) else {
        return Vec::new();
    };
    proof {
        let x = choose|x: Height| is_first_candidate(old(book).candidate@, qc.checkpoint_hash, x);
        assert(x.0 <= height.0 && height.0 <= x.0);
        assert(x == height);
    }
    if !verify_macro_qc(set, &qc, &candidate) {
        book.rejected_crypto = book.rejected_crypto.wrapping_add(1);
        return Vec::new();
    }
    let ghost pre = *book;
    let mut actions: Actions = Vec::new();
    let persisted = qc.duplicate();
    actions.push(Action::PersistMacroCheckpoint(candidate));
    actions.push(Action::PersistMacroQc(persisted));
    book.emitted_macro_qc.insert(qc.checkpoint_hash);
    book.last_macro_hash = candidate.hash;
    book.next_height = Height(height.0.wrapping_add(1));
    book.proposal_seen.insert(height);
    book.timers.clear_backup(height);
    book.timers.clear_mode_b(height);
    let blob = blob_id_of_checkpoint(&candidate);
    actions.push(Action::UpdateBlobStatus { blob, status: BlobStatus::Justified });
    let ghost prefix = actions@;
    let ghost mid = *book;
    settle_adoption(book, cfg, candidate, &mut actions);
    assert(actions@.subrange(0, 3) == prefix);
    assert(actions@[0] == prefix[0] && actions@[1] == prefix[1] && actions@[2] == prefix[2]);
    assert(mid.two_chain == pre.two_chain && mid.candidate == pre.candidate);
    actions
}

/// What handling a received QC did: a hash already adopted is answered with
/// nothing; otherwise it fails without an epoch-0 set; a failure changes
/// nothing; on success the QC was merged against the set.
pub open spec fn macro_qc_handled(pre: MacroBook, post: MacroBook, cfg: Config, ctx: &HostContext, qc: MacroQc, r: Result<Actions>) -> bool {
    &&& (pre.emitted_macro_qc@.contains(qc.checkpoint_hash) ==> r is Ok && produced(r).len() == 0 && post == pre)
    &&& (!pre.emitted_macro_qc@.contains(qc.checkpoint_hash) && ctx.valset.spec_set_for(Epoch(0)) is None ==> r is Err)
    &&& (r is Err ==> post == pre)
    &&& (r is Ok ==> qc_receipt(pre, post, cfg, ctx.valset.spec_set_for(Epoch(0))->0, qc, produced(r)))
}

/// Idempotent merge of a received MacroQc: adopt its checkpoint when it is a
/// known candidate and the aggregate verifies. A hash already adopted is
/// answered with nothing before the validator set is read.
pub fn on_macro_qc_received(book: &mut MacroBook, cfg: &Config, qc: MacroQc, ctx: &HostContext) -> (r: Result<Actions>)
    requires
        old(book).wf(),
    ensures
        final(book).wf(),
        macro_qc_handled(*old(book), *final(book), *cfg, ctx, qc, r),
        ctx.valset.spec_answers() && ctx.valset.spec_set_for(Epoch(0)) is Some ==> r is Ok,
{
    if book.emitted_macro_qc.contains(&qc.checkpoint_hash) {
        return Ok(Vec::new());
    }
    let set = active_set(ctx)?;
    Ok(receive_macro_qc(book, cfg, &set, qc))
}

/// The parent the probe gives the checkpoint at height `i`: zero at height 0,
/// else the bytes `0x99`.
pub open spec fn probe_parent(i: u64) -> Seq<u8> {
    if i == 0 { crate::types::crypto_types::zero32() } else { Seq::new(32, |j: int| 0x99u8) }
}

/// The hash of the checkpoint the probe builds at height `i`.
pub open spec fn probe_hash(i: u64) -> Seq<u8> {
    crate::crypto::digest_with_dst(Dst::MacroCheckpoint, crate::codec::u64_le(i) + crate::codec::u64_le(0) + probe_parent(i)
        + Seq::new(32, |j: int| (i + 1) as u8))
}

/// None of the probe's first three checkpoints hashes to the parent the later
/// ones name, so no parent link of the probe holds.
pub open spec fn probe_links_broken() -> bool {
    forall|i: u64| i < 3 ==> #[trigger] probe_hash(i) != Seq::new(32, |j: int| 0x99u8)
}

/// Probe: adopt four justified windows whose parent links are broken and
/// report whether the inactivity leak was announced. An announcement needs
/// the configured trigger to be at most four windows.
pub fn probe_inactivity_leak_streak(cfg: &Config) -> (r: bool)
    ensures
        r ==> cfg.macro_fin.inactivity_leak_trigger_windows <= 4,
        probe_links_broken() ==> (r <==> cfg.macro_fin.inactivity_leak_trigger_windows <= 4),
{
    let mut book = MacroBook::new(ValidatorId([0u8; 32]));
    let mut actions: Actions = Vec::new();
    let mut i: u64 = 0;
    while i < 4
        invariant
            book.wf(),
            0 <= i <= 4,
            book.unfinalized_windows <= i,
            forall|k: int| 0 <= k < actions@.len() ==> (#[trigger] actions@[k] matches Action::NotifyInactivityLeak { windows, .. }
                && windows >= cfg.macro_fin.inactivity_leak_trigger_windows && windows <= i),
            probe_links_broken() ==> {
                &&& forall|x: Height| #[trigger] book.two_chain@.contains_key(x) <==> x.0 < i
                &&& forall|x: Height| x.0 < i ==> (#[trigger] book.two_chain@[x]).hash.0@ == probe_hash(x.0)
                &&& book.unfinalized_windows == i
                &&& book.leak_notified == (i > 0 && i >= cfg.macro_fin.inactivity_leak_trigger_windows)
                &&& actions@.len() == (if book.leak_notified { 1int } else { 0int })
            },
        decreases 4 - i,
    {
        let height = Height(i);
        let parent = if i == 0 { Hash32::zero() } else { Hash32([0x99u8; 32]) };
        let root_byte: u8 = (i + 1) as u8;
        let root = Hash32([root_byte; 32]);
        proof {
            assert(parent.0@ =~= probe_parent(i));
            assert(root.0@ =~= Seq::new(32, |j: int| (i + 1) as u8));
        }
        let cp = crate::macro_fin::checkpoint::build(height, Epoch(0), parent, root);
        book.candidate.insert(height, cp);
        book.two_chain.adopt(cp);
        proof {
            if probe_links_broken() {
                assert(cp.hash.0@ == probe_hash(i));
                assert(book.two_chain@.contains_key(height));
                assert(book.two_chain@[height] == cp);
                if i > 0 {
                    let below = Height((i - 1) as u64);
                    assert(book.two_chain@.contains_key(below));
                    assert(book.two_chain@[below].hash.0@ == probe_hash((i - 1) as u64));
                    assert(probe_hash((i - 1) as u64) != Seq::new(32, |j: int| 0x99u8));
                    assert(cp.parent.0@ =~= Seq::new(32, |j: int| 0x99u8));
                    assert(book.two_chain@[height].parent != book.two_chain@[below].hash);
                }
                crate::macro_fin::two_chain::lemma_no_finality_without_link(book.two_chain, height);
            }
        }
        let finalized = book.two_chain.newly_finalized_height().is_some();
        let ghost before = actions@;
        note_inactivity_leak_on_adoption(&mut book, cfg, &mut actions, finalized);
        if let Some(prev) = book.two_chain.newly_finalized_height() {
            book.two_chain.mark_finalized(prev);
        }
        i = i + 1;
        assert forall|k: int| 0 <= k < actions@.len() implies (#[trigger] actions@[k] matches Action::NotifyInactivityLeak { windows, .. }
            && windows >= cfg.macro_fin.inactivity_leak_trigger_windows && windows <= i) by {
            if k < before.len() {
                assert(actions@[k] == before[k]);
            }
        }
        proof {
            if probe_links_broken() {
                assert forall|x: Height| #[trigger] book.two_chain@.contains_key(x) <==> x.0 < i by {
                    if x.0 == i - 1 {
                        assert(x == height);
                    }
                }
                assert forall|x: Height| x.0 < i implies (#[trigger] book.two_chain@[x]).hash.0@ == probe_hash(x.0) by {
                    if x.0 == i - 1 {
                        assert(x == height);
                    }
                }
            }
        }
    }
    let mut k: usize = 0;
    while k < actions.len()
        invariant
            0 <= k <= actions.len(),
            k == 0,
            probe_links_broken() ==> (actions@.len() > 0 <==> cfg.macro_fin.inactivity_leak_trigger_windows <= 4),
            forall|j: int| 0 <= j < actions@.len() ==> (#[trigger] actions@[j] matches Action::NotifyInactivityLeak { windows, .. }
                && windows >= cfg.macro_fin.inactivity_leak_trigger_windows && windows <= 4),
        decreases actions.len() - k,
    {
        if let Action::NotifyInactivityLeak { .. } = actions[k] {
            assert(actions@[k as int] matches Action::NotifyInactivityLeak { windows, .. } && windows <= 4);
            return true;
        }
        k = k + 1;
    }
    false
}

/// Hashes of the `BroadcastMicroQc` actions, in order.
pub open spec fn micro_qc_hashes(actions: Seq<Action>) -> Seq<Hash32>
    decreases actions.len(),
{
    if actions.len() == 0 {
        Seq::empty()
    } else {
        let prev = micro_qc_hashes(actions.drop_last());
        match actions.last() {
            Action::BroadcastMicroQc(qc) => prev.push(qc.checkpoint_hash),
            _ => prev,
        }
    }
}

/// An action `on_local_micro_qcs` may append: a proposal by this validator for
/// a checkpoint at `height` on `parent`, or a timer.
pub open spec fn proposal_or_timer(a: Action, self_id: ValidatorId, height: Height, parent: Hash32) -> bool {
    match a {
        Action::BroadcastMacroProposal(p) => p.proposer == self_id && p.checkpoint.height == height
            && p.checkpoint.parent == parent,
        Action::ScheduleTimer { .. } => true,
        _ => false,
    }
}

/// Book fields the micro-QC intake leaves alone.
pub open spec fn intake_frame(pre: MacroBook, post: MacroBook) -> bool {
    &&& post.self_id == pre.self_id
    &&& post.next_height == pre.next_height
    &&& post.last_macro_hash == pre.last_macro_hash
    &&& post.partials == pre.partials
    &&& post.emitted_macro_qc == pre.emitted_macro_qc
    &&& post.two_chain == pre.two_chain
    &&& post.locks == pre.locks
    &&& post.votes == pre.votes
    &&& post.partial_sigs == pre.partial_sigs
    &&& post.mode_b_active == pre.mode_b_active
    &&& post.rejected_crypto == pre.rejected_crypto
}

/// The ring after feeding `hs`: each hash joins it, and it empties whenever
/// it holds `w` hashes.
pub open spec fn ring_after(ring: Seq<Hash32>, hs: Seq<Hash32>, w: nat) -> Seq<Hash32>
    decreases hs.len(),
{
    if hs.len() == 0 {
        ring
    } else {
        let r = ring_after(ring, hs.drop_last(), w).push(hs.last());
        if r.len() < w { r } else { Seq::empty() }
    }
}

/// The contents of the last window that filled while feeding `hs`, if any.
pub open spec fn last_window(ring: Seq<Hash32>, hs: Seq<Hash32>, w: nat) -> Option<Seq<Hash32>>
    decreases hs.len(),
{
    if hs.len() == 0 {
        None
    } else {
        let r = ring_after(ring, hs.drop_last(), w).push(hs.last());
        if r.len() < w { last_window(ring, hs.drop_last(), w) } else { Some(r) }
    }
}

/// How many windows filled while feeding `hs`.
pub open spec fn windows_closed(ring: Seq<Hash32>, hs: Seq<Hash32>, w: nat) -> nat
    decreases hs.len(),
{
    if hs.len() == 0 {
        0
    } else {
        let r = ring_after(ring, hs.drop_last(), w).push(hs.last());
        windows_closed(ring, hs.drop_last(), w) + (if r.len() < w { 0nat } else { 1nat })
    }
}

/// `cp` is the candidate at `height` on `parent` for the window `win`.
pub open spec fn window_candidate(cp: MacroCheckpoint, height: Height, parent: Hash32, win: Seq<Hash32>) -> bool {
    &&& cp.height == height
    &&& cp.epoch == Epoch(0)
    &&& cp.parent == parent
    &&& cp.micro_root.0@ == crate::macro_fin::book::spec_micro_root(win)
    &&& cp.hash.0@ == crate::macro_fin::checkpoint::spec_checkpoint_hash(height, Epoch(0), parent, cp.micro_root)
}

/// What closing the window `lw` (if one filled) did to the book: the candidate
/// for the next height and its frozen beacon, and, for the round-robin
/// primary of `set`, the height marked as proposed.
pub open spec fn window_effect(pre: MacroBook, post: MacroBook, lw: Option<Seq<Hash32>>, set: ValidatorSet, beacon: Hash32) -> bool {
    match lw {
        None => post.candidate == pre.candidate && post.candidate_beacon == pre.candidate_beacon
            && post.proposal_seen == pre.proposal_seen,
        Some(win) => {
            let h = pre.next_height;
            &&& post.candidate@.contains_key(h)
            &&& post.candidate@ == pre.candidate@.insert(h, post.candidate@[h])
            &&& window_candidate(post.candidate@[h], h, pre.last_macro_hash, win)
            &&& post.candidate_beacon@ == pre.candidate_beacon@.insert(h, beacon)
            &&& post.proposal_seen@ == (if set.entries@.len() > 0 && spec_round_robin(set, h).primary == pre.self_id {
                    pre.proposal_seen@.insert(h)
                } else {
                    pre.proposal_seen@
                })
        },
    }
}

/// Some action of `acts` from position `from` on broadcasts `cp` as a proposal by `proposer`.
pub open spec fn proposes(acts: Seq<Action>, from: int, cp: MacroCheckpoint, proposer: ValidatorId) -> bool {
    exists|i: int| from <= i < acts.len() && (#[trigger] acts[i] matches Action::BroadcastMacroProposal(p)
        && p.checkpoint == cp && p.proposer == proposer)
}

/// What feeding the step's MicroQcs into the macro window did (see `on_local_micro_qcs`).
pub open spec fn micro_intake_handled(pre: MacroBook, post: MacroBook, before: Seq<Action>, after: Seq<Action>, cfg: Config, ctx: &HostContext, r: Result<()>) -> bool {
    &&& (intake_frame(pre, post))
    &&& (after.len() >= before.len())
    &&& (after.subrange(0, before.len() as int) == before)
    &&& (forall|i: int| before.len() <= i < after.len() ==> proposal_or_timer(
        #[trigger] after[i], pre.self_id, pre.next_height, pre.last_macro_hash))
    &&& (micro_qc_hashes(before).len() == 0 ==> r is Ok && post == pre && after == before)
    &&& (micro_qc_hashes(before).len() > 0 && ctx.valset.spec_set_for(Epoch(0)) is None ==> r is Err)
    &&& (r is Ok && micro_qc_hashes(before).len() > 0 ==> ({
        let hs = micro_qc_hashes(before);
        let w = cfg.macro_fin.macro_window_w as nat;
        &&& post.micro_ring@ == ring_after(pre.micro_ring@, hs, w)
        &&& window_effect(pre, post, last_window(pre.micro_ring@, hs, w),
            ctx.valset.spec_set_for(Epoch(0))->0, ctx.beacon.spec_current())
        &&& (last_window(pre.micro_ring@, hs, w) is Some && ctx.valset.spec_set_for(Epoch(0))->0.entries@.len() > 0
            && spec_round_robin(ctx.valset.spec_set_for(Epoch(0))->0, pre.next_height).primary == pre.self_id
            ==> proposes(after, before.len() as int, post.candidate@[pre.next_height], pre.self_id))
    }))
    &&& (r is Ok && micro_qc_hashes(before).len() > 0 && cfg.macro_fin.macro_window_w > 0
        ==> post.micro_ring@.len() < cfg.macro_fin.macro_window_w)
    &&& (!(ctx.valset.spec_set_for(Epoch(0)) matches Some(s) && s.entries@.len() > 0
        && spec_round_robin(s, pre.next_height).primary == pre.self_id)
        ==> forall|i: int| before.len() <= i < after.len() ==> !(#[trigger] after[i] is BroadcastMacroProposal))
    &&& (r is Ok && micro_qc_hashes(before).len() > 0 ==> ({
        let hs = micro_qc_hashes(before);
        let w = cfg.macro_fin.macro_window_w as nat;
        let set = ctx.valset.spec_set_for(Epoch(0))->0;
        let primary = set.entries@.len() > 0 && spec_round_robin(set, pre.next_height).primary == pre.self_id;
        &&& (windows_closed(pre.micro_ring@, hs, w) == 0 ==> after == before
            && post == (MacroBook { micro_ring: post.micro_ring, ..pre }))
        &&& (windows_closed(pre.micro_ring@, hs, w) == 1 ==> {
            &&& post == (MacroBook {
                    micro_ring: post.micro_ring,
                    candidate: post.candidate,
                    candidate_beacon: post.candidate_beacon,
                    proposal_seen: post.proposal_seen,
                    timers: post.timers,
                    ..pre
                })
            &&& exists|v: Option<VrfProof>| (primary ==> v is Some) && #[trigger] announcement(pre.timers, post.timers, cfg, set,
                pre.self_id, post.candidate@[pre.next_height], v, ctx.signer, after.subrange(before.len() as int, after.len() as int))
        })
    }))
}

/// Delay of the backup takeover timer: `T_macropropose`, in nanoseconds.
pub open spec fn backup_delay(cfg: Config) -> u128 {
    ((cfg.timing.t_macropropose_ms as u128) * 1_000_000) as u128
}

/// Delay of the Mode B deadline: twice `T_macropropose`, in nanoseconds.
pub open spec fn mode_b_delay(cfg: Config) -> u128 {
    ((cfg.timing.t_macropropose_ms as u128) * 2_000_000) as u128
}

/// Announcing `cp` moved the timers from `t0` to `t1` and produced `acts`:
/// the primary's proposal (when a VRF proof is given), or the backup's
/// takeover timer with the next id; then, outside the dev Mode A override, the
/// Mode B deadline with the id after it.
pub open spec fn announcement<S: SignerPort + ?Sized>(
    t0: MacroTimerBook,
    t1: MacroTimerBook,
    cfg: Config,
    set: ValidatorSet,
    self_id: ValidatorId,
    cp: MacroCheckpoint,
    vrf_proof: Option<VrfProof>,
    signer: &S,
    acts: Seq<Action>,
) -> bool {
    let h = cp.height;
    let primary = set.entries@.len() > 0 && spec_round_robin(set, h).primary == self_id;
    let backup = set.entries@.len() > 0 && !primary && spec_round_robin(set, h).backup == self_id;
    let mode_b = cfg.aggregation.sim_force_ke is None;
    let n0 = t0.seq.spec_next();
    let n1 = if backup { next_id(n0) } else { n0 };
    let first: Seq<Action> = if primary && vrf_proof is Some {
        seq![Action::BroadcastMacroProposal(MacroProposal {
            checkpoint: cp,
            proposer: self_id,
            vrf_proof: vrf_proof->0,
            proposer_sig: signer.spec_sign(Dst::MacroProposerSig.bytes(), spec_partial_message(self_id, cp.hash)),
        })]
    } else if backup {
        seq![Action::ScheduleTimer { id: TimerId(n0), delay_nanos: backup_delay(cfg) }]
    } else {
        Seq::empty()
    };
    let second: Seq<Action> = if mode_b {
        seq![Action::ScheduleTimer { id: TimerId(n1), delay_nanos: mode_b_delay(cfg) }]
    } else {
        Seq::empty()
    };
    &&& acts == first + second
    &&& t1.seq.spec_next() == (if mode_b { next_id(n1) } else { n1 })
    &&& t1.backup_by_height@ == (if backup { t0.backup_by_height@.insert(h.0, TimerId(n0)) } else { t0.backup_by_height@ })
    &&& t1.mode_b_by_height@ == (if mode_b { t0.mode_b_by_height@.insert(h.0, TimerId(n1)) } else { t0.mode_b_by_height@ })
}

/// Announce the candidate `candidate` of a closed window: the round-robin
/// primary of `set` proposes it with the VRF proof `vrf_proof` (when one is
/// given) and marks its height proposed, the backup arms its takeover timer,
/// and outside the dev Mode A override a Mode B deadline is armed.
pub fn announce_window<S: SignerPort + ?Sized>(
    book: &mut MacroBook,
    cfg: &Config,
    set: &ValidatorSet,
    candidate: MacroCheckpoint,
    vrf_proof: Option<VrfProof>,
    signer: &S,
    actions: &mut Actions,
)
    requires
        old(book).wf(),
    ensures
        final(book).wf(),
        ({
            let pre = *old(book);
            let h = candidate.height;
            let primary = set.entries@.len() > 0 && spec_round_robin(*set, h).primary == pre.self_id;
            let backup = set.entries@.len() > 0 && !primary && spec_round_robin(*set, h).backup == pre.self_id;
            let proposes_now = primary && vrf_proof is Some;
            let k = old(actions)@.len() as int;
            let j = if proposes_now || backup { k + 1 } else { k };
            &&& *final(book) == (MacroBook { proposal_seen: final(book).proposal_seen, timers: final(book).timers, ..pre })
            &&& final(book).proposal_seen@ == (if proposes_now { pre.proposal_seen@.insert(h) } else { pre.proposal_seen@ })
            &&& final(actions)@.len() == j + (if cfg.aggregation.sim_force_ke is None { 1int } else { 0int })
            &&& final(actions)@.subrange(0, k) == old(actions)@
            &&& (proposes_now ==> final(actions)@[k] == Action::BroadcastMacroProposal(MacroProposal {
                    checkpoint: candidate,
                    proposer: pre.self_id,
                    vrf_proof: vrf_proof->0,
                    proposer_sig: signer.spec_sign(Dst::MacroProposerSig.bytes(), spec_partial_message(pre.self_id, candidate.hash)),
                }))
            &&& forall|i: int| k <= i < final(actions)@.len() && !(proposes_now && i == k)
                ==> (#[trigger] final(actions)@[i]) is ScheduleTimer
            &&& announcement(pre.timers, final(book).timers, *cfg, *set, pre.self_id, candidate, vrf_proof, signer,
                final(actions)@.subrange(k, final(actions)@.len() as int))
        }),
{
    let ghost k = actions@.len();
    let ghost t0 = book.timers;
    let height = candidate.height;
    let mut primary = false;
    if set.entries.len() > 0 {
        let schedule = ProposerSchedule::round_robin(set, height);
        primary = schedule.primary.same(&book.self_id);
        if primary {
            if let Some(vrf_proof) = vrf_proof {
                let msg = crate::macro_fin::messages::proposer_message(&book.self_id, &candidate);
                let dst = Dst::MacroProposerSig.to_vec();
                let proposer_sig = signer.sign_bls(dst.as_slice(), msg.as_slice());
                actions.push(Action::BroadcastMacroProposal(MacroProposal {
                    checkpoint: candidate,
                    proposer: book.self_id,
                    vrf_proof,
                    proposer_sig,
                }));
                book.proposal_seen.insert(height);
            }
        } else if schedule.backup.same(&book.self_id) {
            let a = book.timers.backup_propose_action(cfg, height);
            actions.push(a);
        }
    }
    let ghost after_first = actions@;
    let ghost t_mid = book.timers;
    if cfg.aggregation.sim_force_ke.is_none() {
        let a = book.timers.mode_b_deadline_action(cfg, height);
        let ghost before = actions@;
        actions.push(a);
        assert(actions@.subrange(0, k as int) =~= before.subrange(0, k as int));
    }
    proof {
        let pre = *old(book);
        let primary_s = set.entries@.len() > 0 && spec_round_robin(*set, height).primary == pre.self_id;
        let backup_s = set.entries@.len() > 0 && !primary_s && spec_round_robin(*set, height).backup == pre.self_id;
        let n0 = t0.seq.spec_next();
        let n1 = if backup_s { next_id(n0) } else { n0 };
        assert(t_mid.seq.spec_next() == n1);
        let first: Seq<Action> = if primary_s && vrf_proof is Some {
            seq![Action::BroadcastMacroProposal(MacroProposal {
                checkpoint: candidate,
                proposer: pre.self_id,
                vrf_proof: vrf_proof->0,
                proposer_sig: signer.spec_sign(Dst::MacroProposerSig.bytes(), spec_partial_message(pre.self_id, candidate.hash)),
            })]
        } else if backup_s {
            seq![Action::ScheduleTimer { id: TimerId(n0), delay_nanos: backup_delay(*cfg) }]
        } else {
            Seq::empty()
        };
        assert(after_first.subrange(k as int, after_first.len() as int) =~= first);
        assert(actions@.subrange(0, after_first.len() as int) =~= after_first);
        let second: Seq<Action> = if cfg.aggregation.sim_force_ke is None {
            seq![Action::ScheduleTimer { id: TimerId(n1), delay_nanos: mode_b_delay(*cfg) }]
        } else {
            Seq::empty()
        };
        assert(actions@.subrange(k as int, actions@.len() as int) =~= first + second);
    }
}

/// Feed this step's locally emitted MicroQcs into the macro window. Each
/// checkpoint hash joins the ring; when the ring holds `W` of them, a candidate
/// for the next height is built on the last adopted checkpoint, its beacon is
/// frozen, the round-robin primary proposes it, the backup arms its takeover
/// timer, and (outside the dev Mode A override) a Mode B deadline is armed.
pub fn on_local_micro_qcs(book: &mut MacroBook, cfg: &Config, ctx: &HostContext, actions: &mut Actions) -> (r: Result<()>)
    requires
        old(book).wf(),
    ensures
        final(book).wf(),
        micro_intake_handled(*old(book), *final(book), old(actions)@, final(actions)@, *cfg, ctx, r),
{
    let ghost pre_book = *book;
    let ghost pre_actions = actions@;
    let mut new_hashes: Vec<Hash32> = Vec::new();
    let mut i: usize = 0;
    while i < actions.len()
        invariant
            0 <= i <= actions.len(),
            new_hashes@ == micro_qc_hashes(actions@.subrange(0, i as int)),
        decreases actions.len() - i,
    {
        assert(actions@.subrange(0, i + 1).drop_last() =~= actions@.subrange(0, i as int));
        if let Action::BroadcastMicroQc(qc) = &actions[i] {
            new_hashes.push(qc.checkpoint_hash);
        }
        i = i + 1;
    }
    assert(actions@.subrange(0, actions@.len() as int) =~= actions@);
    if new_hashes.len() == 0 {
        return Ok(());
    }
    let w = cfg.macro_fin.macro_window_w as usize;
    let set = active_set(ctx)?;
    let ghost mut ann: Option<VrfProof> = None;
    let mut k: usize = 0;
    while k < new_hashes.len()
        invariant
            book.wf(),
            pre_book == *old(book),
            pre_actions == old(actions)@,
            new_hashes@ == micro_qc_hashes(pre_actions),
            new_hashes@.len() > 0,
            intake_frame(pre_book, *book),
            actions@.len() >= pre_actions.len(),
            actions@.subrange(0, pre_actions.len() as int) == pre_actions,
            forall|i: int| pre_actions.len() <= i < actions@.len() ==> proposal_or_timer(
                #[trigger] actions@[i], pre_book.self_id, pre_book.next_height, pre_book.last_macro_hash),
            0 <= k <= new_hashes.len(),
            w == cfg.macro_fin.macro_window_w as usize,
            ctx.valset.spec_set_for(Epoch(0)) == Some(set),
            book.micro_ring@ == ring_after(pre_book.micro_ring@, new_hashes@.subrange(0, k as int), w as nat),
            window_effect(pre_book, *book, last_window(pre_book.micro_ring@, new_hashes@.subrange(0, k as int), w as nat),
                set, ctx.beacon.spec_current()),
            last_window(pre_book.micro_ring@, new_hashes@.subrange(0, k as int), w as nat) is Some && set.entries@.len() > 0
                && spec_round_robin(set, pre_book.next_height).primary == pre_book.self_id
                ==> proposes(actions@, pre_actions.len() as int, book.candidate@[pre_book.next_height], pre_book.self_id),
            k > 0 && w > 0 ==> book.micro_ring@.len() < w,
            !(set.entries@.len() > 0 && spec_round_robin(set, pre_book.next_height).primary == pre_book.self_id)
                ==> forall|i: int| pre_actions.len() <= i < actions@.len() ==> !(#[trigger] actions@[i] is BroadcastMacroProposal),
            windows_closed(pre_book.micro_ring@, new_hashes@.subrange(0, k as int), w as nat) == 0 ==> actions@ == pre_actions
                && *book == (MacroBook { micro_ring: book.micro_ring, ..pre_book }),
            windows_closed(pre_book.micro_ring@, new_hashes@.subrange(0, k as int), w as nat) == 1 ==> {
                &&& *book == (MacroBook {
                        micro_ring: book.micro_ring,
                        candidate: book.candidate,
                        candidate_beacon: book.candidate_beacon,
                        proposal_seen: book.proposal_seen,
                        timers: book.timers,
                        ..pre_book
                    })
                &&& (set.entries@.len() > 0 && spec_round_robin(set, pre_book.next_height).primary == pre_book.self_id ==> ann is Some)
                &&& announcement(pre_book.timers, book.timers, *cfg, set, pre_book.self_id, book.candidate@[pre_book.next_height], ann,
                    ctx.signer, actions@.subrange(pre_actions.len() as int, actions@.len() as int))
            },
        decreases new_hashes.len() - k,
    {
        let h = new_hashes[k];
        let ghost prev = new_hashes@.subrange(0, k as int);
        k = k + 1;
        book.micro_ring.push(h);
        proof {
            let sub = new_hashes@.subrange(0, k as int);
            assert(sub.drop_last() =~= prev);
            assert(sub.last() == h);
        }
        if book.micro_ring.len() < w {
            continue;
        }
        let ghost win = book.micro_ring@;
        let ghost before_window = *book;
        let candidate_height = book.next_height;
        let micro_root = micro_root_of_ring(&book.micro_ring);
        let candidate = crate::macro_fin::checkpoint::build(candidate_height, Epoch(0), book.last_macro_hash, micro_root);
        book.micro_ring.clear();
        book.candidate.insert(candidate_height, candidate);
        let beacon = ctx.beacon.current()?;
        book.candidate_beacon.insert(candidate_height, beacon);
        let primary = set.entries.len() > 0 && ProposerSchedule::round_robin(&set, candidate_height).primary.same(&book.self_id);
        let vrf_proof = if primary {
            let alpha = vrf_alpha(&beacon, candidate_height, &book.self_id);
            let (proof, _) = ctx.signer.vrf_prove(alpha.as_slice())?;
            Some(proof)
        } else {
            None
        };
        let ghost before = actions@;
        let ghost closed_before = windows_closed(pre_book.micro_ring@, prev, w as nat);
        let ghost book_before = *book;
        announce_window(book, cfg, &set, candidate, vrf_proof, ctx.signer, actions);
        proof {
            if closed_before == 0 {
                ann = vrf_proof;
                assert(before == pre_actions);
                assert(book_before.timers == pre_book.timers);
                assert(actions@.subrange(pre_actions.len() as int, actions@.len() as int)
                    == actions@.subrange(before.len() as int, actions@.len() as int));
                assert(book.candidate@[pre_book.next_height] == candidate);
            }
        }
        proof {
            assert(actions@.subrange(0, pre_actions.len() as int) =~= before.subrange(0, pre_actions.len() as int));
            assert forall|i: int| pre_actions.len() <= i < actions@.len() implies proposal_or_timer(
                #[trigger] actions@[i], pre_book.self_id, pre_book.next_height, pre_book.last_macro_hash) by {
                if i < before.len() {
                    assert(actions@[i] == before[i]);
                }
            }
            if !(set.entries@.len() > 0 && spec_round_robin(set, pre_book.next_height).primary == pre_book.self_id) {
                assert forall|i: int| pre_actions.len() <= i < actions@.len() implies !(#[trigger] actions@[i] is BroadcastMacroProposal) by {
                    if i < before.len() {
                        assert(actions@[i] == before[i]);
                    }
                }
            }
        }
        proof {
            let hgt = pre_book.next_height;
            assert(last_window(pre_book.micro_ring@, new_hashes@.subrange(0, k as int), w as nat) == Some(win));
            assert(book.micro_ring@ =~= Seq::<Hash32>::empty());
            assert(book.candidate@ =~= pre_book.candidate@.insert(hgt, candidate));
            assert(book.candidate_beacon@ =~= pre_book.candidate_beacon@.insert(hgt, ctx.beacon.spec_current()));
            if set.entries@.len() > 0 && spec_round_robin(set, hgt).primary == pre_book.self_id {
                assert(book.proposal_seen@ =~= pre_book.proposal_seen@.insert(hgt));
            } else {
                assert(book.proposal_seen@ =~= pre_book.proposal_seen@);
            }
        }
    }
    proof {
        assert(new_hashes@.subrange(0, k as int) =~= new_hashes@);
    }
    Ok(())
}

} // verus!
