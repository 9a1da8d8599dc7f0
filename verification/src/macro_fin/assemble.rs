//! Assembling MacroQcs from partials and subnet aggregates.
use vstd::prelude::*;
use crate::action::{produced, Action, Actions};
use crate::config::Config;
use crate::error::Result;
use crate::event::{BlsPartial, SubnetAggregate};
use crate::host_context::HostContext;
use crate::macro_fin::aggregation::mode_a_subnet::{spec_mode_a_outcome, union_bits, ModeASubnet};
use crate::macro_fin::book::{aggs_unique, MacroBook};
use crate::macro_fin::macro_qc::{flat_outcome, qc_matches, try_finalize_mode0, try_finalize_mode_a_from_aggs, try_finalize_mode_b};
use crate::macro_fin::messages::spec_checkpoint_message;
use crate::macro_fin::proposer::{spec_round_robin, ProposerSchedule};
use crate::macro_fin::support::{
    active_mode, active_set, aggs_for_hash, aggs_of, beacon_for_height, find_candidate, is_first_candidate, is_min_signer,
    should_assemble_qc, signers_for, signers_of, spec_active_mode, subnet_assign, subnet_signers_for, subnet_signers_of,
};
use crate::macro_fin::verify::{signed_by, subnet_agg_valid, verify_partial, verify_subnet_agg};
use crate::macro_fin::vote::{set_size_fits, spec_assign, wrapping_inc};
use crate::macro_fin::aggregation::mode_a_subnet::spec_subnet_outcome;
use crate::macro_fin::aggregation::subnet::SubnetAssign;
use crate::bytes::{lemma_lex_lt_total, lex_lt};
use crate::event::SubnetId;
use crate::types::primitives::ValidatorId;
use crate::macro_fin::{adoption_prefix, adoption_step, adopts_with, finality_step, finish_macro_qc_adoption};
use crate::crypto::Dst;
use crate::types::crypto_types::Hash32;
use crate::types::macros::{AggregationMode, MacroCheckpoint, MacroQc};
use crate::types::primitives::{Epoch, Height};
use crate::types::validator::ValidatorSet;

verus! {

/// Mode A outcomes depend on the aggregates' bitmaps only.
proof fn lemma_mode_a_outcome_by_bitmaps(
    target: Hash32,
    a: Seq<SubnetAggregate>,
    b: Seq<SubnetAggregate>,
    sigs: Map<(Hash32, crate::types::primitives::ValidatorId), crate::types::crypto_types::BlsSig>,
    set: ValidatorSet,
)
    requires
        a.len() == b.len(),
        forall|i: int| 0 <= i < a.len() ==> (#[trigger] a[i]).agg.bitmap@ == b[i].agg.bitmap@,
    ensures
        spec_mode_a_outcome(target, a, sigs, set) == spec_mode_a_outcome(target, b, sigs, set),
{
    let n = set.entries@.len();
    assert(union_bits(a, n) =~= union_bits(b, n)) by {
        assert forall|i: int| 0 <= i < n implies union_bits(a, n)[i] == union_bits(b, n)[i] by {
            if union_bits(a, n)[i] {
                let k = choose|k: int| 0 <= k < a.len() && crate::bitmap::spec_bit(#[trigger] a[k].agg.bitmap@, i);
                assert(crate::bitmap::spec_bit(b[k].agg.bitmap@, i));
            }
            if union_bits(b, n)[i] {
                let k = choose|k: int| 0 <= k < b.len() && crate::bitmap::spec_bit(#[trigger] b[k].agg.bitmap@, i);
                assert(a[k].agg.bitmap@ == b[k].agg.bitmap@);
                assert(crate::bitmap::spec_bit(a[k].agg.bitmap@, i));
            }
        }
    }
}

/// Whether the Mode A QC for `h` at `height` is adopted now: no leaderless
/// fallback at that height, this validator is the round-robin primary, the
/// stored aggregates for `h` cover a quorum, and no QC was adopted for `h` yet.
pub open spec fn mode_a_emits(book: MacroBook, set: ValidatorSet, h: Hash32, height: Height) -> bool {
    &&& !book.mode_b_active@.contains(height)
    &&& set.entries@.len() > 0
    &&& book.self_id == spec_round_robin(set, height).primary
    &&& spec_mode_a_outcome(h, aggs_for_hash(book.subnet_aggs@, h), book.partial_sigs@, set) is Some
    &&& !book.emitted_macro_qc@.contains(h)
}

/// The Mode A QC attempt for `h` at `height` from `pre`: when it is emitted,
/// the candidate at `height` is adopted under a Mode A QC over the stored
/// aggregates; else nothing changes and nothing is produced.
pub open spec fn mode_a_qc_part(pre: MacroBook, post: MacroBook, cfg: Config, set: ValidatorSet, h: Hash32, height: Height, acts: Seq<Action>) -> bool {
    let cp = pre.candidate@[height];
    if mode_a_emits(pre, set, h, height) {
        &&& adopts_with(acts, cp, h, AggregationMode::ModeASubnet,
            spec_mode_a_outcome(h, aggs_for_hash(pre.subnet_aggs@, h), pre.partial_sigs@, set))
        &&& adoption_step(pre, post, height, cp, h)
        &&& finality_step(pre, post, cfg, cp, acts.subrange(4, acts.len() as int))
    } else {
        acts.len() == 0 && post == pre
    }
}

/// Try the Mode A QC for `checkpoint_hash` at `height` against the epoch-0 set.
pub fn mode_a_qc_step(book: &mut MacroBook, cfg: &Config, checkpoint_hash: Hash32, height: Height, set: &ValidatorSet) -> (actions: Actions)
    requires
        old(book).wf(),
        old(book).candidate@.contains_key(height),
    ensures
        final(book).wf(),
        mode_a_qc_part(*old(book), *final(book), *cfg, *set, checkpoint_hash, height, actions@),
{
    if book.mode_b_active.contains(&height) {
        return Vec::new();
    }
    if set.entries.len() == 0 {
        return Vec::new();
    }
    let schedule = ProposerSchedule::round_robin(set, height);
    if !book.self_id.same(&schedule.primary) {
        return Vec::new();
    }
    let aggs = aggs_of(book, &checkpoint_hash);
    proof {
        lemma_mode_a_outcome_by_bitmaps(checkpoint_hash, aggs@, aggs_for_hash(book.subnet_aggs@, checkpoint_hash), book.partial_sigs@, *set);
    }
    let Some(qc) = try_finalize_mode_a_from_aggs(checkpoint_hash, &aggs, set, &book.partial_sigs) else {
        return Vec::new();
    };
    if book.emitted_macro_qc.contains(&checkpoint_hash) {
        return Vec::new();
    }
    let candidate = match book.candidate.get(&height) {
        Some(c) => c,
        None => {
            return Vec::new();
        },
    };
    let ghost q = qc;
    let ghost pre = *book;
    let actions = finish_macro_qc_adoption(book, cfg, height, candidate, qc);
    assert(qc_matches(q, checkpoint_hash, AggregationMode::ModeASubnet,
        spec_mode_a_outcome(checkpoint_hash, aggs_for_hash(pre.subnet_aggs@, checkpoint_hash), pre.partial_sigs@, *set)));
    assert(adoption_prefix(actions@, pre.candidate@[height], q));
    actions
}

/// Adopt the Mode A QC for `checkpoint_hash` when this validator is the primary
/// and the stored subnet aggregates reach the quorum. Outside leaderless mode
/// the beacon for `height` is read first, as the schedule is drawn from it.
#[verifier::spinoff_prover]
fn try_emit_mode_a_qc(book: &mut MacroBook, cfg: &Config, checkpoint_hash: Hash32, height: Height, ctx: &HostContext) -> (r: Result<Actions>)
    requires
        old(book).wf(),
        old(book).candidate@.contains_key(height),
    ensures
        final(book).wf(),
        ctx.valset.spec_set_for(Epoch(0)) is None ==> r is Err,
        r is Err ==> *final(book) == *old(book),
        r is Ok ==> ctx.valset.spec_set_for(Epoch(0)) is Some
            && mode_a_qc_part(*old(book), *final(book), *cfg, ctx.valset.spec_set_for(Epoch(0))->0, checkpoint_hash, height, produced(r)),
        ctx.valset.spec_answers() && ctx.beacon.spec_answers() && ctx.valset.spec_set_for(Epoch(0)) is Some ==> r is Ok,
{
    let set = active_set(ctx)?;
    if book.mode_b_active.contains(&height) {
        return Ok(Vec::new());
    }
    let _beacon = beacon_for_height(book, ctx, height)?;
    Ok(mode_a_qc_step(book, cfg, checkpoint_hash, height, &set))
}

/// A partial is valid for a checkpoint: it names the checkpoint and the
/// validator's signature over the checkpoint body verifies.
pub open spec fn partial_valid(set: ValidatorSet, bp: BlsPartial, cp: MacroCheckpoint) -> bool {
    bp.checkpoint_hash == cp.hash && signed_by(set, bp.validator, Dst::MacroCheckpoint, spec_checkpoint_message(cp), bp.sig)
}

/// `id` aggregates `subnet`: it is assigned there and no validator assigned
/// there has a smaller id.
pub open spec fn is_subnet_aggregator(set: ValidatorSet, assign: SubnetAssign, subnet: SubnetId, id: ValidatorId) -> bool {
    &&& exists|i: int| 0 <= i < set.entries@.len() && set.entries@[i].id == id && assign.spec_index_for(id) == subnet.0 as nat
    &&& forall|i: int| 0 <= i < set.entries@.len() && assign.spec_index_for(#[trigger] set.entries@[i].id) == subnet.0 as nat
        ==> !lex_lt(set.entries@[i].id.0@, id.0@)
}

/// Whether `id` aggregates `subnet`.
pub(crate) fn aggregates_subnet(subnet: SubnetId, set: &ValidatorSet, assign: &SubnetAssign, id: &ValidatorId) -> (r: bool)
    ensures
        r == is_subnet_aggregator(*set, *assign, subnet, *id),
{
    match ModeASubnet::aggregator_for(subnet, set, assign) {
        Some(a) => {
            proof {
                if is_subnet_aggregator(*set, *assign, subnet, *id) && a != *id {
                    let i = choose|i: int| 0 <= i < set.entries@.len() && set.entries@[i].id == *id
                        && assign.spec_index_for(*id) == subnet.0 as nat;
                    let j = choose|j: int| 0 <= j < set.entries@.len() && set.entries@[j].id == a
                        && assign.spec_index_for(set.entries@[j].id) == subnet.0 as nat;
                    assert(!lex_lt(set.entries@[j].id.0@, id.0@));
                    assert(!lex_lt(set.entries@[i].id.0@, a.0@));
                    if a.0@ == id.0@ {
                        assert(a.0 =~= id.0);
                    }
                    lemma_lex_lt_total(a.0@, id.0@);
                }
            }
            a.same(id)
        },
        None => false,
    }
}

/// The subnet aggregate for `h` on `subnet` over the subnet's signers in
/// `book`, broadcast when it reaches the subnet quorum and this validator
/// aggregates the subnet.
pub open spec fn agg_broadcast(book: MacroBook, set: ValidatorSet, assign: SubnetAssign, h: Hash32, subnet: SubnetId) -> bool {
    let signers = subnet_signers_for(book.subnet_partials@, h, subnet);
    spec_subnet_outcome(h, subnet, signers, signers.len(), set, assign, book.partial_sigs@) is Some
        && is_subnet_aggregator(set, assign, subnet, book.self_id)
}

/// What a valid partial for the still open candidate at `x` does once its
/// signature is stored in `mid`. Mode A: the signer joins its subnet and the
/// checkpoint's signers; the aggregator broadcasts the subnet aggregate once
/// the subnet reaches quorum, and the Mode A QC is tried. Mode 0 on another
/// subnet than 0: nothing. Mode 0 or B otherwise: the signer joins, and the
/// smallest signer adopts the flat QC once the signers reach quorum.
pub open spec fn assembly_outcome(mid: MacroBook, post: MacroBook, cfg: Config, set: ValidatorSet, beacon: Hash32, bp: BlsPartial, x: Height, acts: Seq<Action>) -> bool {
    let h = bp.checkpoint_hash;
    let cp = mid.candidate@[x];
    let mode = spec_active_mode(mid, cfg, set.entries@.len(), x);
    if mode == AggregationMode::ModeASubnet {
        let joined = MacroBook { subnet_partials: post.subnet_partials, partials: post.partials, ..mid };
        let assign = spec_assign(cfg, set, beacon);
        let k: int = if agg_broadcast(joined, set, assign, h, bp.subnet) { 1 } else { 0 };
        let signers = subnet_signers_for(joined.subnet_partials@, h, bp.subnet);
        &&& post.subnet_partials@ == mid.subnet_partials@.insert(((h, bp.subnet), bp.validator))
        &&& post.partials@ == mid.partials@.insert((h, bp.validator))
        &&& acts.len() >= k
        &&& (k == 1 ==> (acts[0] matches Action::BroadcastSubnetAggregate(a) && a.subnet == bp.subnet && a.checkpoint_hash == h
            && spec_subnet_outcome(h, bp.subnet, signers, signers.len(), set, assign, joined.partial_sigs@)
                == Some((a.agg.sig.0@, a.agg.bitmap@))))
        &&& mode_a_qc_part(joined, post, cfg, set, h, x, acts.subrange(k, acts.len() as int))
    } else if mode == AggregationMode::Mode0Flat && bp.subnet.0 != 0 {
        post == mid && acts.len() == 0
    } else {
        let joined = MacroBook { partials: post.partials, ..mid };
        let signers = signers_for(post.partials@, h);
        let outcome = flat_outcome(h, signers, signers.len(), mid.partial_sigs@, set);
        &&& post.partials@ == mid.partials@.insert((h, bp.validator))
        &&& if is_min_signer(mid.self_id, signers) && outcome is Some {
            adopts_with(acts, cp, h, mode, outcome) && adoption_step(joined, post, x, cp, h)
                && finality_step(joined, post, cfg, cp, acts.subrange(4, acts.len() as int))
        } else {
            post == joined && acts.len() == 0
        }
    }
}

/// What an inbound partial does given the epoch-0 set and the beacon of its
/// checkpoint's height: nothing for an unknown checkpoint; a count of
/// rejected crypto when it does not verify over the first candidate with its
/// hash; else its signature is stored, and unless a QC was adopted for that
/// hash already it is assembled (see `assembly_outcome`).
pub open spec fn partial_outcome(pre: MacroBook, post: MacroBook, cfg: Config, set: ValidatorSet, beacon: Hash32, bp: BlsPartial, acts: Seq<Action>) -> bool {
    let h = bp.checkpoint_hash;
    if !(exists|x: Height| is_first_candidate(pre.candidate@, h, x)) {
        post == pre && acts.len() == 0
    } else {
        let x = choose|x: Height| is_first_candidate(pre.candidate@, h, x);
        let mid = MacroBook { partial_sigs: post.partial_sigs, ..pre };
        if !partial_valid(set, bp, pre.candidate@[x]) {
            post == (MacroBook { rejected_crypto: wrapping_inc(pre.rejected_crypto), ..pre }) && acts.len() == 0
        } else if pre.emitted_macro_qc@.contains(h) {
            &&& post.partial_sigs@ == pre.partial_sigs@.insert((h, bp.validator), bp.sig)
            &&& post == mid
            &&& acts.len() == 0
        } else {
            &&& post.partial_sigs@ == pre.partial_sigs@.insert((h, bp.validator), bp.sig)
            &&& assembly_outcome(mid, post, cfg, set, beacon, bp, x, acts)
        }
    }
}

/// The first candidate height for the partial's hash, or `None`, proving it is
/// the one `partial_outcome` speaks of.
fn partial_target(book: &MacroBook, h: &Hash32) -> (r: Option<(Height, MacroCheckpoint)>)
    requires
        book.wf(),
    ensures
        match r {
            Some((x, cp)) => is_first_candidate(book.candidate@, *h, x) && cp == book.candidate@[x]
                && x == choose|y: Height| is_first_candidate(book.candidate@, *h, y),
            None => !(exists|y: Height| is_first_candidate(book.candidate@, *h, y)),
        },
{
    let r = find_candidate(book, h);
    proof {
        match r {
            Some((x, cp)) => {
                let y = choose|y: Height| is_first_candidate(book.candidate@, *h, y);
                assert(x.0 <= y.0 && y.0 <= x.0);
            },
            None => {},
        }
    }
    r
}

/// Verify a partial against the candidate it names and store its signature.
/// Answers whether the candidate is still open (no QC adopted for it yet).
fn admit_partial(book: &mut MacroBook, set: &ValidatorSet, bp: &BlsPartial, checkpoint: &MacroCheckpoint) -> (open: bool)
    requires
        old(book).wf(),
    ensures
        final(book).wf(),
        !partial_valid(*set, *bp, *checkpoint) ==> !open
            && *final(book) == (MacroBook { rejected_crypto: wrapping_inc(old(book).rejected_crypto), ..*old(book) }),
        partial_valid(*set, *bp, *checkpoint) ==> {
            &&& final(book).partial_sigs@ == old(book).partial_sigs@.insert((bp.checkpoint_hash, bp.validator), bp.sig)
            &&& *final(book) == (MacroBook { partial_sigs: final(book).partial_sigs, ..*old(book) })
            &&& open == !old(book).emitted_macro_qc@.contains(bp.checkpoint_hash)
        },
{
    if !verify_partial(set, bp, checkpoint) {
        book.rejected_crypto = book.rejected_crypto.wrapping_add(1);
        return false;
    }
    book.partial_sigs.insert((bp.checkpoint_hash, bp.validator), bp.sig);
    !book.emitted_macro_qc.contains(&bp.checkpoint_hash)
}

/// Assemble a stored, valid partial for the open candidate at `height`.
#[verifier::spinoff_prover]
fn assemble_partial(
    book: &mut MacroBook,
    cfg: &Config,
    set: &ValidatorSet,
    beacon: &Hash32,
    bp: &BlsPartial,
    height: Height,
    checkpoint: &MacroCheckpoint,
) -> (actions: Actions)
    requires
        old(book).wf(),
        set.entries@.len() <= u32::MAX,
        old(book).candidate@.contains_key(height),
        *checkpoint == old(book).candidate@[height],
        bp.checkpoint_hash == checkpoint.hash,
    ensures
        final(book).wf(),
        assembly_outcome(*old(book), *final(book), *cfg, *set, *beacon, *bp, height, actions@),
{
    let mode = active_mode(book, cfg, set, height);
    match mode {
        AggregationMode::ModeASubnet => {
            let assign = subnet_assign(cfg, set, beacon);
            let subnet = bp.subnet;
            book.subnet_partials.insert(((bp.checkpoint_hash, subnet), bp.validator));
            book.partials.insert((bp.checkpoint_hash, bp.validator));
            let ghost joined = *book;
            let mut actions: Actions = Vec::new();
            let signers = subnet_signers_of(book, &bp.checkpoint_hash, subnet);
            proof {
                signers.lemma_len();
            }
            let built = ModeASubnet::try_build_aggregate(bp.checkpoint_hash, subnet, &signers, set, &assign, &book.partial_sigs);
            let mine = aggregates_subnet(subnet, set, &assign, &book.self_id);
            if let Some(agg) = built {
                if mine {
                    actions.push(Action::BroadcastSubnetAggregate(agg));
                }
            }
            let ghost k: int = actions@.len() as int;
            let ghost first = actions@;
            let mut extra = mode_a_qc_step(book, cfg, bp.checkpoint_hash, height, set);
            let ghost rest = extra@;
            actions.append(&mut extra);
            proof {
                assert(actions@.subrange(k, actions@.len() as int) =~= rest);
                assert(joined == (MacroBook { subnet_partials: joined.subnet_partials, partials: joined.partials, ..*old(book) }));
                if k == 1 {
                    assert(actions@[0] == first[0]);
                }
            }
            actions
        },
        _ => {
            let mode0 = match mode {
                AggregationMode::Mode0Flat => true,
                _ => false,
            };
            if mode0 && bp.subnet.0 != 0 {
                return Vec::new();
            }
            book.partials.insert((bp.checkpoint_hash, bp.validator));
            let signers = signers_of(book, &bp.checkpoint_hash);
            proof {
                signers.lemma_len();
            }
            if !should_assemble_qc(book, &signers) {
                return Vec::new();
            }
            let qc = if mode0 {
                try_finalize_mode0(bp.checkpoint_hash, &signers, &book.partial_sigs, set, checkpoint)
            } else {
                try_finalize_mode_b(bp.checkpoint_hash, &signers, &book.partial_sigs, set, checkpoint)
            };
            let Some(qc) = qc else {
                return Vec::new();
            };
            let ghost q = qc;
            let actions = finish_macro_qc_adoption(book, cfg, height, *checkpoint, qc);
            assert(qc_matches(q, bp.checkpoint_hash, mode, flat_outcome(bp.checkpoint_hash, signers@, signers@.len(), book.partial_sigs@, *set)));
            actions
        },
    }
}

/// Absorb an inbound partial against the epoch-0 set `set` and the beacon
/// `beacon` of its checkpoint's height (see `partial_outcome`).
pub fn absorb_partial(book: &mut MacroBook, cfg: &Config, set: &ValidatorSet, beacon: &Hash32, bp: BlsPartial) -> (actions: Actions)
    requires
        old(book).wf(),
        set.entries@.len() <= u32::MAX,
    ensures
        final(book).wf(),
        partial_outcome(*old(book), *final(book), *cfg, *set, *beacon, bp, actions@),
{
    let Some((height, checkpoint)) = partial_target(book, &bp.checkpoint_hash) else {
        return Vec::new();
    };
    if !admit_partial(book, set, &bp, &checkpoint) {
        return Vec::new();
    }
    assemble_partial(book, cfg, set, beacon, &bp, height, &checkpoint)
}

/// What handling an inbound partial did: for a known checkpoint without an
/// epoch-0 set it fails; a failure changes at most the stored partial
/// signatures; on success the partial was absorbed against the set and the
/// beacon of its checkpoint's height (the frozen one, else the current one).
pub open spec fn bls_partial_handled(pre: MacroBook, post: MacroBook, cfg: Config, ctx: &HostContext, bp: BlsPartial, r: Result<Actions>) -> bool {
    let x = choose|x: Height| is_first_candidate(pre.candidate@, bp.checkpoint_hash, x);
    let frozen = if pre.candidate_beacon@.contains_key(x) { pre.candidate_beacon@[x] } else { ctx.beacon.spec_current() };
    &&& (!(exists|x: Height| is_first_candidate(pre.candidate@, bp.checkpoint_hash, x))
        ==> r is Ok && produced(r).len() == 0 && post == pre)
    &&& ((exists|x: Height| is_first_candidate(pre.candidate@, bp.checkpoint_hash, x))
        && ctx.valset.spec_set_for(Epoch(0)) is None ==> r is Err)
    &&& (r is Err ==> post == (MacroBook { partial_sigs: post.partial_sigs, ..pre }))
    &&& (r is Ok ==> partial_outcome(pre, post, cfg, ctx.valset.spec_set_for(Epoch(0))->0, frozen, bp, produced(r)))
}

/// Once a QC was adopted for a checkpoint hash, a partial for it changes at
/// most the stored partial signatures and the rejected-crypto count, and
/// produces nothing: no second QC is ever assembled for that hash.
pub proof fn lemma_no_second_qc(pre: MacroBook, post: MacroBook, cfg: Config, ctx: &HostContext, bp: BlsPartial, r: Result<Actions>)
    requires
        bls_partial_handled(pre, post, cfg, ctx, bp, r),
        pre.emitted_macro_qc@.contains(bp.checkpoint_hash),
    ensures
        produced(r).len() == 0,
        post == (MacroBook { partial_sigs: post.partial_sigs, rejected_crypto: post.rejected_crypto, ..pre }),
{
}

/// Handle an inbound partial signature. Partials for unknown checkpoints are
/// ignored before the validator set is read; invalid ones are counted and
/// dropped. A valid partial is stored; unless a QC for its checkpoint was
/// already adopted, the beacon of its height is read and the partial is
/// assembled (see `partial_outcome`).
pub fn on_bls_partial(book: &mut MacroBook, cfg: &Config, bp: BlsPartial, ctx: &HostContext) -> (r: Result<Actions>)
    requires
        old(book).wf(),
        set_size_fits(ctx),
    ensures
        final(book).wf(),
        bls_partial_handled(*old(book), *final(book), *cfg, ctx, bp, r),
        ctx.valset.spec_answers() && ctx.beacon.spec_answers() && ctx.valset.spec_set_for(Epoch(0)) is Some ==> r is Ok,
{
    let Some((height, checkpoint)) = partial_target(book, &bp.checkpoint_hash) else {
        return Ok(Vec::new());
    };
    let set = active_set(ctx)?;
    if !admit_partial(book, &set, &bp, &checkpoint) {
        return Ok(Vec::new());
    }
    let beacon = beacon_for_height(book, ctx, height)?;
    Ok(assemble_partial(book, cfg, &set, &beacon, &bp, height, &checkpoint))
}

/// Store `agg`, replacing the aggregate stored for the same checkpoint and subnet.
fn store_subnet_agg(aggs: &mut Vec<SubnetAggregate>, agg: SubnetAggregate)
    requires
        aggs_unique(old(aggs)@),
    ensures
        aggs_unique(final(aggs)@),
        (exists|i: int| 0 <= i < old(aggs)@.len() && (#[trigger] old(aggs)@[i]).checkpoint_hash == agg.checkpoint_hash
            && old(aggs)@[i].subnet == agg.subnet) ==> exists|i: int| 0 <= i < old(aggs)@.len()
            && old(aggs)@[i].checkpoint_hash == agg.checkpoint_hash && old(aggs)@[i].subnet == agg.subnet
            && final(aggs)@ == old(aggs)@.update(i, agg),
        !(exists|i: int| 0 <= i < old(aggs)@.len() && (#[trigger] old(aggs)@[i]).checkpoint_hash == agg.checkpoint_hash
            && old(aggs)@[i].subnet == agg.subnet) ==> final(aggs)@ == old(aggs)@.push(agg),
        final(aggs)@.contains(agg),
{
    let mut i: usize = 0;
    while i < aggs.len()
        invariant
            0 <= i <= aggs.len(),
            aggs@ == old(aggs)@,
            aggs_unique(aggs@),
            forall|j: int| 0 <= j < i ==> (#[trigger] aggs@[j]).checkpoint_hash != agg.checkpoint_hash || aggs@[j].subnet != agg.subnet,
        decreases aggs.len() - i,
    {
        if aggs[i].checkpoint_hash.same(&agg.checkpoint_hash) && aggs[i].subnet.0 == agg.subnet.0 {
            let ghost pre = aggs@;
            assert(pre[i as int].checkpoint_hash == agg.checkpoint_hash && pre[i as int].subnet == agg.subnet);
            aggs.set(i, agg);
            assert(aggs@[i as int] == agg);
            assert(aggs_unique(aggs@)) by {
                assert forall|a: int, b: int| 0 <= a < aggs@.len() && 0 <= b < aggs@.len() && a != b implies
                    (#[trigger] aggs@[a]).checkpoint_hash != (#[trigger] aggs@[b]).checkpoint_hash || aggs@[a].subnet != aggs@[b].subnet by {
                    if a != i && b != i {
                        assert(aggs@[a] == pre[a] && aggs@[b] == pre[b]);
                    } else if a == i {
                        assert(aggs@[b] == pre[b]);
                        assert(pre[i as int].checkpoint_hash != pre[b].checkpoint_hash || pre[i as int].subnet != pre[b].subnet);
                    } else {
                        assert(aggs@[a] == pre[a]);
                        assert(pre[i as int].checkpoint_hash != pre[a].checkpoint_hash || pre[i as int].subnet != pre[a].subnet);
                    }
                }
            }
            return;
        }
        i = i + 1;
    }
    let ghost pre = aggs@;
    aggs.push(agg);
    assert(aggs@[pre.len() as int] == agg);
    assert(aggs_unique(aggs@)) by {
        assert forall|a: int, b: int| 0 <= a < aggs@.len() && 0 <= b < aggs@.len() && a != b implies
            (#[trigger] aggs@[a]).checkpoint_hash != (#[trigger] aggs@[b]).checkpoint_hash || aggs@[a].subnet != aggs@[b].subnet by {
            if a < pre.len() && b < pre.len() {
                assert(aggs@[a] == pre[a] && aggs@[b] == pre[b]);
            } else if a < pre.len() {
                assert(aggs@[a] == pre[a]);
            } else {
                assert(aggs@[b] == pre[b]);
            }
        }
    }
}

/// The stored aggregates after storing `agg`: it replaces the one for the same
/// checkpoint and subnet, else it is appended.
pub open spec fn stored_aggs(aggs: Seq<SubnetAggregate>, agg: SubnetAggregate) -> Seq<SubnetAggregate> {
    if exists|i: int| 0 <= i < aggs.len() && (#[trigger] aggs[i]).checkpoint_hash == agg.checkpoint_hash && aggs[i].subnet == agg.subnet {
        let i = choose|i: int| 0 <= i < aggs.len() && (#[trigger] aggs[i]).checkpoint_hash == agg.checkpoint_hash && aggs[i].subnet == agg.subnet;
        aggs.update(i, agg)
    } else {
        aggs.push(agg)
    }
}

/// What an inbound subnet aggregate does given the epoch-0 set: nothing for an
/// unknown checkpoint; a count of rejected crypto when it does not verify over
/// the first candidate with its hash; else it is stored and the Mode A QC for
/// that candidate is tried.
pub open spec fn aggregate_outcome(pre: MacroBook, post: MacroBook, cfg: Config, set: ValidatorSet, agg: SubnetAggregate, acts: Seq<Action>) -> bool {
    let h = agg.checkpoint_hash;
    if !(exists|x: Height| is_first_candidate(pre.candidate@, h, x)) {
        post == pre && acts.len() == 0
    } else {
        let x = choose|x: Height| is_first_candidate(pre.candidate@, h, x);
        if !subnet_agg_valid(set, agg, pre.candidate@[x], pre.partial_sigs@) {
            post == (MacroBook { rejected_crypto: wrapping_inc(pre.rejected_crypto), ..pre }) && acts.len() == 0
        } else {
            &&& post.subnet_aggs@ == stored_aggs(pre.subnet_aggs@, agg)
            &&& mode_a_qc_part(MacroBook { subnet_aggs: post.subnet_aggs, ..pre }, post, cfg, set, h, x, acts)
        }
    }
}

/// Verify a subnet aggregate against the candidate it names and store it.
fn admit_subnet_agg(book: &mut MacroBook, set: &ValidatorSet, agg: SubnetAggregate, checkpoint: &MacroCheckpoint) -> (ok: bool)
    requires
        old(book).wf(),
    ensures
        final(book).wf(),
        ok == subnet_agg_valid(*set, agg, *checkpoint, old(book).partial_sigs@),
        !ok ==> *final(book) == (MacroBook { rejected_crypto: wrapping_inc(old(book).rejected_crypto), ..*old(book) }),
        ok ==> final(book).subnet_aggs@ == stored_aggs(old(book).subnet_aggs@, agg)
            && *final(book) == (MacroBook { subnet_aggs: final(book).subnet_aggs, ..*old(book) }),
{
    if !verify_subnet_agg(set, &agg, checkpoint, &book.partial_sigs) {
        book.rejected_crypto = book.rejected_crypto.wrapping_add(1);
        return false;
    }
    let ghost pre = book.subnet_aggs@;
    store_subnet_agg(&mut book.subnet_aggs, agg);
    proof {
        if exists|i: int| 0 <= i < pre.len() && (#[trigger] pre[i]).checkpoint_hash == agg.checkpoint_hash && pre[i].subnet == agg.subnet {
            let i = choose|i: int| 0 <= i < pre.len() && (#[trigger] pre[i]).checkpoint_hash == agg.checkpoint_hash && pre[i].subnet == agg.subnet;
            let j = choose|j: int| 0 <= j < pre.len() && pre[j].checkpoint_hash == agg.checkpoint_hash && pre[j].subnet == agg.subnet
                && book.subnet_aggs@ == pre.update(j, agg);
            if i != j {
                assert(aggs_unique(pre));
                assert(pre[i].checkpoint_hash != pre[j].checkpoint_hash || pre[i].subnet != pre[j].subnet);
            }
        }
    }
    true
}

/// Absorb a subnet aggregate against the epoch-0 set `set` (see `aggregate_outcome`).
pub fn absorb_subnet_aggregate(book: &mut MacroBook, cfg: &Config, set: &ValidatorSet, agg: SubnetAggregate) -> (actions: Actions)
    requires
        old(book).wf(),
    ensures
        final(book).wf(),
        aggregate_outcome(*old(book), *final(book), *cfg, *set, agg, actions@),
{
    let Some((height, checkpoint)) = partial_target(book, &agg.checkpoint_hash) else {
        return Vec::new();
    };
    let checkpoint_hash = agg.checkpoint_hash;
    if !admit_subnet_agg(book, set, agg, &checkpoint) {
        return Vec::new();
    }
    mode_a_qc_step(book, cfg, checkpoint_hash, height, set)
}

/// What handling a subnet aggregate did: for a known checkpoint without an
/// epoch-0 set it fails; a failure changes at most the stored aggregates; on
/// success the aggregate was absorbed against the set.
pub open spec fn subnet_aggregate_handled(pre: MacroBook, post: MacroBook, cfg: Config, ctx: &HostContext, agg: SubnetAggregate, r: Result<Actions>) -> bool {
    &&& (!(exists|x: Height| is_first_candidate(pre.candidate@, agg.checkpoint_hash, x))
        ==> r is Ok && produced(r).len() == 0 && post == pre)
    &&& ((exists|x: Height| is_first_candidate(pre.candidate@, agg.checkpoint_hash, x))
        && ctx.valset.spec_set_for(Epoch(0)) is None ==> r is Err)
    &&& (r is Err ==> post == (MacroBook { subnet_aggs: post.subnet_aggs, ..pre }))
    &&& (r is Ok ==> aggregate_outcome(pre, post, cfg, ctx.valset.spec_set_for(Epoch(0))->0, agg, produced(r)))
}

/// Handle a subnet aggregate (Mode A): aggregates for unknown checkpoints are
/// ignored, invalid ones counted and dropped; a valid one is stored (replacing
/// the one for the same subnet) and the Mode A QC is tried.
pub fn on_subnet_aggregate(book: &mut MacroBook, cfg: &Config, agg: SubnetAggregate, ctx: &HostContext) -> (r: Result<Actions>)
    requires
        old(book).wf(),
    ensures
        final(book).wf(),
        subnet_aggregate_handled(*old(book), *final(book), *cfg, ctx, agg, r),
        ctx.valset.spec_answers() && ctx.beacon.spec_answers() && ctx.valset.spec_set_for(Epoch(0)) is Some ==> r is Ok,
{
    let Some((height, checkpoint)) = partial_target(book, &agg.checkpoint_hash) else {
        return Ok(Vec::new());
    };
    let set = active_set(ctx)?;
    let checkpoint_hash = agg.checkpoint_hash;
    if !admit_subnet_agg(book, &set, agg, &checkpoint) {
        return Ok(Vec::new());
    }
    try_emit_mode_a_qc(book, cfg, checkpoint_hash, height, ctx)
}

} // verus!
