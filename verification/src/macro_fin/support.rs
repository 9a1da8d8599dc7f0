//! Shared lookups and small steps of the macro-finality handlers.
use vstd::prelude::*;
use crate::action::{Action, Actions};
use crate::api::tier::BlobStatus;
use crate::config::Config;
use crate::error::{Error, Result};
use crate::event::SubnetAggregate;
use crate::host_context::HostContext;
use crate::macro_fin::aggregation::spec_ke;
use crate::macro_fin::aggregation::subnet::SubnetAssign;
use crate::macro_fin::book::MacroBook;
use crate::table::KeySet;
use crate::types::crypto_types::Hash32;
use crate::types::macros::{AggregationMode, MacroCheckpoint, MacroProposal};
use crate::event::SubnetId;
use crate::types::primitives::{BlobId, Epoch, Height, ValidatorId};
use crate::types::validator::ValidatorSet;

verus! {

/// The validator set of epoch 0, as the port holds it.
pub fn active_set(ctx: &HostContext) -> (r: Result<ValidatorSet>)
    ensures
        r matches Ok(s) ==> ctx.valset.spec_set_for(Epoch(0)) == Some(s),
        ctx.valset.spec_set_for(Epoch(0)) is None ==> r is Err,
        ctx.valset.spec_answers() && ctx.valset.spec_set_for(Epoch(0)) is Some ==> r is Ok,
{
    match ctx.valset.set_for(Epoch(0))? {
        Some(s) => Ok(s),
        None => Err(Error::InvalidConfig("no validator set for epoch 0".to_owned())),
    }
}

/// Mode at `height`: leaderless once activated there, else by the subnet count.
pub open spec fn spec_active_mode(book: MacroBook, cfg: Config, n: nat, height: Height) -> AggregationMode {
    if book.mode_b_active@.contains(height) {
        AggregationMode::ModeBLeaderless
    } else if spec_ke(cfg, n as u32) >= 4 {
        AggregationMode::ModeASubnet
    } else {
        AggregationMode::Mode0Flat
    }
}

/// Active aggregation mode at `height` (runtime Mode B overrides the threshold).
pub fn active_mode(book: &MacroBook, cfg: &Config, set: &ValidatorSet, height: Height) -> (m: AggregationMode)
    requires
        set.entries@.len() <= u32::MAX,
    ensures
        m == spec_active_mode(*book, *cfg, set.entries@.len(), height),
{
    if book.mode_b_active.contains(&height) {
        return AggregationMode::ModeBLeaderless;
    }
    let n_e = set.entries.len() as u32;
    if crate::macro_fin::aggregation::mode_a_active(crate::macro_fin::aggregation::compute_ke(cfg, n_e)) {
        AggregationMode::ModeASubnet
    } else {
        AggregationMode::Mode0Flat
    }
}

/// The beacon frozen for `height`, else the port's current one.
pub fn beacon_for_height(book: &MacroBook, ctx: &HostContext, height: Height) -> (r: Result<Hash32>)
    requires
        book.wf(),
    ensures
        book.candidate_beacon@.contains_key(height) ==> r == Ok::<Hash32, Error>(book.candidate_beacon@[height]),
        !book.candidate_beacon@.contains_key(height) ==> (r matches Ok(b) ==> b == ctx.beacon.spec_current()),
        ctx.beacon.spec_answers() ==> r is Ok,
{
    if let Some(b) = book.candidate_beacon.get(&height) {
        return Ok(b);
    }
    ctx.beacon.current()
}

/// Subnet assignment for the set's size and the given beacon.
pub fn subnet_assign(cfg: &Config, set: &ValidatorSet, beacon: &Hash32) -> (a: SubnetAssign)
    requires
        set.entries@.len() <= u32::MAX,
    ensures
        a.k_e.0 == spec_ke(*cfg, set.entries@.len() as u32),
        a.r_macro == *beacon,
{
    let n_e = set.entries.len() as u32;
    SubnetAssign { k_e: crate::macro_fin::aggregation::compute_ke(cfg, n_e), r_macro: *beacon }
}

/// `self_id` is the lexicographically smallest signer.
pub open spec fn is_min_signer(self_id: ValidatorId, signers: Set<ValidatorId>) -> bool {
    signers.contains(self_id) && forall|s: ValidatorId| signers.contains(s) ==> !crate::bytes::lex_lt(s.0@, self_id.0@)
}

/// Only the lexicographically smallest signer assembles a QC.
pub fn should_assemble_qc(book: &MacroBook, signers: &KeySet<ValidatorId>) -> (r: bool)
    requires
        signers.wf(),
    ensures
        r == is_min_signer(book.self_id, signers@),
{
    if !signers.contains(&book.self_id) {
        return false;
    }
    let mut i: usize = 0;
    while i < signers.len()
        invariant
            0 <= i <= signers.elems().len(),
            forall|k: int| 0 <= k < i ==> !crate::bytes::lex_lt((#[trigger] signers.elems()[k]).0@, book.self_id.0@),
        decreases signers.elems().len() - i,
    {
        let s = signers.item(i);
        if s.less(&book.self_id) {
            assert(signers@.contains(s)) by {
                assert(signers.elems()[i as int] == s);
            }
            return false;
        }
        i = i + 1;
    }
    assert forall|s: ValidatorId| signers@.contains(s) implies !crate::bytes::lex_lt(s.0@, book.self_id.0@) by {
        let k = choose|k: int| 0 <= k < signers.elems().len() && signers.elems()[k] == s;
        assert(signers.elems()[k] == s);
    }
    true
}

/// After adopting a window: reset on finalization, else count it and announce
/// the leak once, when the count first reaches the trigger.
pub fn note_inactivity_leak_on_adoption(book: &mut MacroBook, cfg: &Config, actions: &mut Actions, finalized_this_step: bool)
    ensures
        ({
            let w: u32 = if old(book).unfinalized_windows == u32::MAX { u32::MAX } else { (old(book).unfinalized_windows + 1) as u32 };
            let announce = !finalized_this_step && w >= cfg.macro_fin.inactivity_leak_trigger_windows && !old(book).leak_notified;
            &&& final(book).unfinalized_windows == (if finalized_this_step { 0 } else { w })
            &&& final(book).leak_notified == (if finalized_this_step { false } else { old(book).leak_notified || announce })
            &&& final(actions)@ == (if announce {
                old(actions)@.push(Action::NotifyInactivityLeak { windows: w, bps_per_window: cfg.macro_fin.inactivity_leak_bps_per_window })
            } else {
                old(actions)@
            })
        }),
        final(book).self_id == old(book).self_id,
        final(book).micro_ring == old(book).micro_ring,
        final(book).next_height == old(book).next_height,
        final(book).last_macro_hash == old(book).last_macro_hash,
        final(book).candidate == old(book).candidate,
        final(book).candidate_beacon == old(book).candidate_beacon,
        final(book).partials == old(book).partials,
        final(book).emitted_macro_qc == old(book).emitted_macro_qc,
        final(book).two_chain == old(book).two_chain,
        final(book).locks == old(book).locks,
        final(book).suppressed_conflicts == old(book).suppressed_conflicts,
        final(book).proposal_seen == old(book).proposal_seen,
        final(book).mode_b_active == old(book).mode_b_active,
        final(book).timers == old(book).timers,
        final(book).subnet_aggs == old(book).subnet_aggs,
        final(book).subnet_partials == old(book).subnet_partials,
        final(book).votes == old(book).votes,
        final(book).partial_sigs == old(book).partial_sigs,
        final(book).proposals_seen == old(book).proposals_seen,
        final(book).rejected_crypto == old(book).rejected_crypto,
{
    if finalized_this_step {
        book.unfinalized_windows = 0;
        book.leak_notified = false;
        return;
    }
    book.unfinalized_windows = book.unfinalized_windows.saturating_add(1);
    let (bps, apply) = crate::slashing::inactivity_leak::compute(cfg, book.unfinalized_windows);
    if apply && !book.leak_notified {
        book.leak_notified = true;
        actions.push(Action::NotifyInactivityLeak { windows: book.unfinalized_windows, bps_per_window: bps });
    }
}

/// The blob id standing for a checkpoint: its hash's first 16 bytes, then zeros.
pub open spec fn spec_blob_id(cp: MacroCheckpoint) -> Seq<u8> {
    Seq::new(32, |i: int| if i < 16 { cp.hash.0@[i] } else { 0u8 })
}

/// Deterministic projection from a checkpoint hash to a `BlobId`.
pub fn blob_id_of_checkpoint(cp: &MacroCheckpoint) -> (b: BlobId)
    ensures
        b.0@ == spec_blob_id(*cp),
{
    let mut b = [0u8; 32];
    let mut i: usize = 0;
    while i < 16
        invariant
            0 <= i <= 16,
            forall|k: int| 0 <= k < i ==> b@[k] == cp.hash.0@[k],
            forall|k: int| 16 <= k < 32 ==> b@[k] == 0u8,
        decreases 16 - i,
    {
        b[i] = cp.hash.0[i];
        i = i + 1;
    }
    let r = BlobId(b);
    assert(r.0@ =~= spec_blob_id(*cp));
    r
}

/// `x` is the smallest candidate height whose checkpoint hash is `h`.
pub open spec fn is_first_candidate(cands: Map<Height, MacroCheckpoint>, h: Hash32, x: Height) -> bool {
    &&& cands.contains_key(x)
    &&& cands[x].hash == h
    &&& forall|y: Height| cands.contains_key(y) && cands[y].hash == h ==> x.0 <= y.0
}

/// The smallest candidate height whose checkpoint hash is `h`, with its checkpoint.
pub fn find_candidate(book: &MacroBook, h: &Hash32) -> (r: Option<(Height, MacroCheckpoint)>)
    requires
        book.wf(),
    ensures
        match r {
            Some((x, cp)) => is_first_candidate(book.candidate@, *h, x) && cp == book.candidate@[x],
            None => forall|y: Height| #[trigger] book.candidate@.contains_key(y) ==> book.candidate@[y].hash != *h,
        },
{
    let t = &book.candidate;
    let mut best: Option<(Height, MacroCheckpoint)> = None;
    let mut i: usize = 0;
    while i < t.len()
        invariant
            t.wf(),
            0 <= i <= t.pairs().len(),
            match best {
                Some((b, cp)) => t@.contains_key(b) && t@[b] == cp && cp.hash == *h
                    && forall|j: int| 0 <= j < i && (#[trigger] t.pairs()[j]).1.hash == *h ==> b.0 <= t.pairs()[j].0.0,
                None => forall|j: int| 0 <= j < i ==> (#[trigger] t.pairs()[j]).1.hash != *h,
            },
        decreases t.pairs().len() - i,
    {
        let (x, cp) = t.pair(i);
        proof {
            t.lemma_at(i as int);
        }
        if cp.hash.same(h) {
            match best {
                Some((b, _)) => {
                    if x.0 < b.0 {
                        best = Some((x, cp));
                    }
                },
                None => {
                    best = Some((x, cp));
                },
            }
        }
        i = i + 1;
    }
    proof {
        match best {
            Some((b, cp)) => {
                assert forall|y: Height| t@.contains_key(y) && t@[y].hash == *h implies b.0 <= y.0 by {
                    let j = choose|j: int| 0 <= j < t.pairs().len() && #[trigger] t.pairs()[j].0 == y;
                    t.lemma_at(j);
                }
            },
            None => {
                assert forall|y: Height| #[trigger] t@.contains_key(y) implies t@[y].hash != *h by {
                    let j = choose|j: int| 0 <= j < t.pairs().len() && #[trigger] t.pairs()[j].0 == y;
                    t.lemma_at(j);
                }
            },
        }
    }
    best
}

/// The validators `v` with `(h, v)` in `pairs`.
pub open spec fn signers_for(pairs: Set<(Hash32, ValidatorId)>, h: Hash32) -> Set<ValidatorId> {
    Set::new(|v: ValidatorId| pairs.contains((h, v)))
}

/// The partial signers recorded for checkpoint hash `h`.
pub fn signers_of(book: &MacroBook, h: &Hash32) -> (r: KeySet<ValidatorId>)
    requires
        book.wf(),
    ensures
        r.wf(),
        r@ == signers_for(book.partials@, *h),
{
    let p = &book.partials;
    let mut r: KeySet<ValidatorId> = KeySet::new();
    let mut i: usize = 0;
    while i < p.len()
        invariant
            p.wf(),
            r.wf(),
            0 <= i <= p.elems().len(),
            forall|v: ValidatorId| r@.contains(v) <==> exists|j: int| 0 <= j < i && #[trigger] p.elems()[j] == (*h, v),
        decreases p.elems().len() - i,
    {
        let (x, v) = p.item(i);
        if x.same(h) {
            r.insert(v);
            assert(p.elems()[i as int] == (*h, v));
        }
        i = i + 1;
    }
    assert(r@ =~= signers_for(p@, *h)) by {
        assert forall|v: ValidatorId| r@.contains(v) == signers_for(p@, *h).contains(v) by {
            if p@.contains((*h, v)) {
                let j = choose|j: int| 0 <= j < p.elems().len() && p.elems()[j] == (*h, v);
                assert(p.elems()[j] == (*h, v));
            }
        }
    }
    r
}

/// The stored subnet aggregates for `h`, in storage order.
pub open spec fn aggs_for_hash(aggs: Seq<SubnetAggregate>, h: Hash32) -> Seq<SubnetAggregate>
    decreases aggs.len(),
{
    if aggs.len() == 0 {
        Seq::empty()
    } else {
        let prev = aggs_for_hash(aggs.drop_last(), h);
        if aggs.last().checkpoint_hash == h { prev.push(aggs.last()) } else { prev }
    }
}

/// Copies of the stored subnet aggregates for `h`.
pub fn aggs_of(book: &MacroBook, h: &Hash32) -> (r: Vec<SubnetAggregate>)
    ensures
        r@.len() == aggs_for_hash(book.subnet_aggs@, *h).len(),
        forall|i: int| 0 <= i < r@.len() ==> (#[trigger] r@[i]).same_as(&aggs_for_hash(book.subnet_aggs@, *h)[i]),
{
    let a = &book.subnet_aggs;
    let mut r: Vec<SubnetAggregate> = Vec::new();
    let mut i: usize = 0;
    while i < a.len()
        invariant
            0 <= i <= a.len(),
            r@.len() == aggs_for_hash(a@.subrange(0, i as int), *h).len(),
            forall|k: int| 0 <= k < r@.len() ==> (#[trigger] r@[k]).same_as(&aggs_for_hash(a@.subrange(0, i as int), *h)[k]),
        decreases a.len() - i,
    {
        assert(a@.subrange(0, i + 1).drop_last() =~= a@.subrange(0, i as int));
        if a[i].checkpoint_hash.same(h) {
            r.push(a[i].duplicate());
        }
        i = i + 1;
    }
    assert(a@.subrange(0, a@.len() as int) =~= a@);
    r
}

/// The proposals seen from `proposer` at `height`, in arrival order.
pub open spec fn seen_from(seen: Seq<MacroProposal>, height: Height, proposer: ValidatorId) -> Seq<MacroProposal>
    decreases seen.len(),
{
    if seen.len() == 0 {
        Seq::empty()
    } else {
        let prev = seen_from(seen.drop_last(), height, proposer);
        let p = seen.last();
        if p.checkpoint.height == height && p.proposer == proposer { prev.push(p) } else { prev }
    }
}

/// The proposals already seen from `proposer` at `height`.
pub fn proposals_from(book: &MacroBook, height: Height, proposer: &ValidatorId) -> (r: Vec<MacroProposal>)
    ensures
        r@ == seen_from(book.proposals_seen@, height, *proposer),
{
    let s = &book.proposals_seen;
    let mut r: Vec<MacroProposal> = Vec::new();
    let mut i: usize = 0;
    while i < s.len()
        invariant
            0 <= i <= s.len(),
            r@ == seen_from(s@.subrange(0, i as int), height, *proposer),
        decreases s.len() - i,
    {
        assert(s@.subrange(0, i + 1).drop_last() =~= s@.subrange(0, i as int));
        let p = s[i];
        if p.checkpoint.height.0 == height.0 && p.proposer.same(proposer) {
            r.push(p);
        }
        i = i + 1;
    }
    assert(s@.subrange(0, s@.len() as int) =~= s@);
    r
}

/// The validators `v` with `((h, subnet), v)` in `pairs`.
pub open spec fn subnet_signers_for(pairs: Set<((Hash32, SubnetId), ValidatorId)>, h: Hash32, subnet: SubnetId) -> Set<ValidatorId> {
    Set::new(|v: ValidatorId| pairs.contains(((h, subnet), v)))
}

/// The Mode A partial signers recorded for `(h, subnet)`.
pub fn subnet_signers_of(book: &MacroBook, h: &Hash32, subnet: SubnetId) -> (r: KeySet<ValidatorId>)
    requires
        book.wf(),
    ensures
        r.wf(),
        r@ == subnet_signers_for(book.subnet_partials@, *h, subnet),
{
    let p = &book.subnet_partials;
    let mut r: KeySet<ValidatorId> = KeySet::new();
    let mut i: usize = 0;
    while i < p.len()
        invariant
            p.wf(),
            r.wf(),
            0 <= i <= p.elems().len(),
            forall|v: ValidatorId| r@.contains(v) <==> exists|j: int| 0 <= j < i && #[trigger] p.elems()[j] == ((*h, subnet), v),
        decreases p.elems().len() - i,
    {
        let ((x, sn), v) = p.item(i);
        if x.same(h) && sn.0 == subnet.0 {
            r.insert(v);
            assert(p.elems()[i as int] == ((*h, subnet), v));
        }
        i = i + 1;
    }
    assert(r@ =~= subnet_signers_for(p@, *h, subnet)) by {
        assert forall|v: ValidatorId| r@.contains(v) == subnet_signers_for(p@, *h, subnet).contains(v) by {
            if p@.contains(((*h, subnet), v)) {
                let j = choose|j: int| 0 <= j < p.elems().len() && p.elems()[j] == ((*h, subnet), v);
                assert(p.elems()[j] == ((*h, subnet), v));
            }
        }
    }
    r
}

} // verus!
