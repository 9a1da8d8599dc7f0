//! L1 distributed vertex certification: deterministic handlers over a
//! per-validator `VertexBook`. The proposer alone aggregates partials for its
//! own vertex; rounds advance when certificates arrive, with a re-broadcast
//! fallback timer that never jumps a round.
pub mod book;
pub mod verify;

pub use crate::vertex_cert::book::VertexBook;

use vstd::prelude::*;
use crate::action::{produced, Action, Actions};
use crate::config::Config;
use crate::crypto::Dst;
use crate::dag::{content_hash, signing_bytes, spec_content_hash, spec_signing_bytes};
use crate::error::{Error, Result};
use crate::host_context::HostContext;
use crate::macro_fin::support::active_set;
use crate::macro_fin::vote::{set_size_fits, wrapping_inc};
use crate::signers::{quorum, quorum_threshold};
use crate::slashing::vertex_equivocation::detect;
use crate::table::Table;
use crate::types::crypto_types::Hash32;
use crate::types::dag::{VertexPartial, VertexProposal};
use crate::types::primitives::{Epoch, Round, ValidatorId};
use crate::types::slashing::SlashEvidence;
use crate::types::validator::{first_index_of, ValidatorSet};
use crate::ports::SignerPort;
use crate::vertex_cert::book::{certs_at, lists_certs};
use crate::vertex_cert::verify::{spec_partial_valid, spec_proposal_valid, verify_partial, verify_proposal};
use crate::vertex_cert::book::{lemma_certs_at_count_map, lowest_authors, authors_at, pick_parents, proposals_unique};
use crate::dag::{cert_valid, seal_hash, verify_certified_vertex};
use crate::macro_fin::aggregation::aggregate_marked;
use crate::signers::signer_bits;
use crate::table::KeySet;
use crate::types::dag::{BlobRef, CertifiedVertex, Vertex};
use crate::types::crypto_types::BlsSig;
use crate::event::TimerId;
use crate::leader::timeout::next_id;

verus! {

/// Certificates needed for a round or a vertex: `2f + 1` of the set.
pub fn quorum_need(set: &ValidatorSet) -> (r: Result<usize>)
    ensures
        match r {
            Ok(q) => 0 < set.entries@.len() <= u32::MAX && q == quorum(set.entries@.len()),
            Err(e) => (set.entries@.len() == 0 || set.entries@.len() > u32::MAX) && e is InvalidConfig,
        },
{
    let n = set.entries.len();
    if n > 0xffff_ffffusize {
        return Err(Error::InvalidConfig("validator set too large".to_owned()));
    }
    if n == 0 {
        return Err(Error::InvalidConfig("empty validator set".to_owned()));
    }
    Ok(quorum_threshold(n))
}

/// `round` is within one of `current`.
pub open spec fn spec_in_window(current: Round, round: Round) -> bool {
    round.0 + 1 >= current.0 && round.0 <= current.0 + 1
}

/// Accept messages only for rounds near our own.
pub fn round_in_window(book: &VertexBook, round: Round) -> (r: bool)
    ensures
        r == spec_in_window(book.current_round, round),
{
    let r = round.0 as u128;
    let c = book.current_round.0 as u128;
    r + 1 >= c && r <= c + 1
}

/// Fallback delay after `retries` fires: `round_duration x (retries + 1)`, in nanoseconds.
pub open spec fn spec_round_delay(cfg: Config, retries: u32) -> u128 {
    (cfg.timing.round_duration_ms * 1_000_000 * (retries + 1)) as u128
}

/// Fallback delay in nanoseconds (linear backoff).
pub fn round_delay_nanos(cfg: &Config, retries: u32) -> (d: u128)
    ensures
        d == spec_round_delay(*cfg, retries),
{
    let ms = cfg.timing.round_duration_ms as u128;
    let k = retries as u128 + 1;
    assert(ms * 1_000_000 <= 0xffff_ffff_ffff_ffffu128 * 1_000_000) by (nonlinear_arith)
        requires ms <= 0xffff_ffff_ffff_ffffu128;
    assert((ms * 1_000_000) * k <= (0xffff_ffff_ffff_ffffu128 * 1_000_000) * 0x1_0000_0000u128) by (nonlinear_arith)
        requires ms * 1_000_000 <= 0xffff_ffff_ffff_ffffu128 * 1_000_000, k <= 0x1_0000_0000u128;
    ms * 1_000_000 * k
}

/// The proposals seen from `author` at `round`, in arrival order.
pub open spec fn seen_at(seen: Seq<VertexProposal>, round: Round, author: ValidatorId) -> Seq<VertexProposal>
    decreases seen.len(),
{
    if seen.len() == 0 {
        Seq::empty()
    } else {
        let prev = seen_at(seen.drop_last(), round, author);
        let p = seen.last();
        if p.vertex.round == round && p.vertex.author == author { prev.push(p) } else { prev }
    }
}

/// Positions of the proposals seen from `author` at `round`, in arrival order.
fn seen_positions(seen: &Vec<VertexProposal>, round: Round, author: &ValidatorId) -> (r: Vec<usize>)
    ensures
        r@.len() == seen_at(seen@, round, *author).len(),
        forall|k: int| 0 <= k < r@.len() ==> (#[trigger] r@[k]) < seen@.len() && seen@[r@[k] as int] == seen_at(seen@, round, *author)[k],
{
    let mut r: Vec<usize> = Vec::new();
    let mut i: usize = 0;
    while i < seen.len()
        invariant
            0 <= i <= seen.len(),
            r@.len() == seen_at(seen@.subrange(0, i as int), round, *author).len(),
            forall|k: int| 0 <= k < r@.len() ==> (#[trigger] r@[k]) < i && seen@[r@[k] as int] == seen_at(seen@.subrange(0, i as int), round, *author)[k],
        decreases seen.len() - i,
    {
        assert(seen@.subrange(0, i + 1).drop_last() =~= seen@.subrange(0, i as int));
        assert(seen@.subrange(0, i + 1).last() == seen@[i as int]);
        if seen[i].vertex.round.0 == round.0 && seen[i].vertex.author.same(author) {
            r.push(i);
        }
        i = i + 1;
    }
    assert(seen@.subrange(0, seen@.len() as int) =~= seen@);
    r
}

/// Whether a listed proposal names another vertex than `hash`.
fn any_conflict(seen: &Vec<VertexProposal>, pos: &Vec<usize>, hash: &Hash32, round: Ghost<Round>, author: Ghost<ValidatorId>) -> (r: bool)
    requires
        pos@.len() == seen_at(seen@, round@, author@).len(),
        forall|k: int| 0 <= k < pos@.len() ==> (#[trigger] pos@[k]) < seen@.len() && seen@[pos@[k] as int] == seen_at(seen@, round@, author@)[k],
    ensures
        r == exists|i: int| 0 <= i < pos@.len() && (#[trigger] seen_at(seen@, round@, author@)[i]).vertex.hash != *hash,
{
    let mut i: usize = 0;
    while i < pos.len()
        invariant
            0 <= i <= pos.len(),
            pos@.len() == seen_at(seen@, round@, author@).len(),
            forall|k: int| 0 <= k < pos@.len() ==> (#[trigger] pos@[k]) < seen@.len() && seen@[pos@[k] as int] == seen_at(seen@, round@, author@)[k],
            forall|k: int| 0 <= k < i ==> (#[trigger] seen_at(seen@, round@, author@)[k]).vertex.hash == *hash,
        decreases pos.len() - i,
    {
        if !seen[pos[i]].vertex.hash.same(hash) {
            assert(seen_at(seen@, round@, author@)[i as int].vertex.hash != *hash);
            return true;
        }
        i = i + 1;
    }
    false
}

/// Some hash certified at `round` equals `h`.
pub open spec fn certified_hash(m: Map<(Round, ValidatorId), Hash32>, round: Round, h: Hash32) -> bool {
    exists|a: ValidatorId| m.contains_key((round, a)) && m[(round, a)] == h
}

/// Parents are acceptable: at round 0 none; later at least `need` of them,
/// each a hash certified at the previous round.
pub open spec fn parents_ok(m: Map<(Round, ValidatorId), Hash32>, round: Round, parents: Seq<Hash32>, need: nat) -> bool {
    if round.0 == 0 {
        parents.len() == 0
    } else {
        parents.len() >= need && forall|i: int| 0 <= i < parents.len()
            ==> certified_hash(m, Round((round.0 - 1) as u64), #[trigger] parents[i])
    }
}

/// Every parent is a hash certified at `prev`.
fn all_certified(book: &VertexBook, prev: Round, parents: &Vec<Hash32>) -> (r: bool)
    requires
        book.wf(),
    ensures
        r == forall|i: int| 0 <= i < parents@.len() ==> certified_hash(book.certified@, prev, #[trigger] parents@[i]),
{
    let certs = certs_at(&book.certified, prev);
    let mut i: usize = 0;
    while i < parents.len()
        invariant
            0 <= i <= parents.len(),
            lists_certs(book.certified@, prev, certs@),
            forall|j: int| 0 <= j < i ==> certified_hash(book.certified@, prev, #[trigger] parents@[j]),
        decreases parents.len() - i,
    {
        let mut found = false;
        let mut k: usize = 0;
        while k < certs.len()
            invariant
                0 <= k <= certs.len(),
                i < parents.len(),
                lists_certs(book.certified@, prev, certs@),
                found ==> certified_hash(book.certified@, prev, parents@[i as int]),
                !found ==> forall|j: int| 0 <= j < k ==> (#[trigger] certs@[j]).1 != parents@[i as int],
            decreases certs.len() - k,
        {
            if certs[k].1.same(&parents[i]) {
                found = true;
                assert(book.certified@.contains_key((prev, certs@[k as int].0)));
            }
            k = k + 1;
        }
        if !found {
            proof {
                if certified_hash(book.certified@, prev, parents@[i as int]) {
                    let a = choose|a: ValidatorId| book.certified@.contains_key((prev, a)) && book.certified@[(prev, a)] == parents@[i as int];
                    let kk = choose|kk: int| 0 <= kk < certs@.len() && (#[trigger] certs@[kk]).0 == a;
                    assert(certs@[kk].1 == parents@[i as int]);
                }
            }
            return false;
        }
        i = i + 1;
    }
    true
}

/// Book fields an inbound proposal never touches.
pub open spec fn proposal_frame(pre: VertexBook, post: VertexBook) -> bool {
    post == VertexBook { rejected_crypto: post.rejected_crypto, proposals_seen: post.proposals_seen, voted: post.voted, ..pre }
}

/// What an inbound vertex proposal does given the epoch-0 set: only the
/// rejected-crypto count, the seen proposals and the votes may change. A
/// proposal whose hash is not its content hash or whose signature fails is
/// counted; own echoes and rounds outside the window are ignored; a second,
/// different proposal of an author and round draws equivocation evidence; a
/// vote goes out once per `(round, author)` when the parents are certified at
/// the previous round (none at round 0, where parents are counted as bad crypto).
pub open spec fn vertex_proposal_outcome<S: SignerPort + ?Sized>(pre: VertexBook, post: VertexBook, set: ValidatorSet, signer: &S, p: VertexProposal, acts: Seq<Action>) -> bool {
    &&& proposal_frame(pre, post)
    &&& {
    let v = p.vertex;
    let key = (v.round, v.author);
    let intact = v.hash.0@ == spec_content_hash(v);
    let signed = intact && spec_proposal_valid(set, p);
    let foreign = signed && v.author != pre.self_id && spec_in_window(pre.current_round, v.round);
    let seen = seen_at(pre.proposals_seen@, v.round, v.author);
    let conflicting = foreign && exists|i: int| 0 <= i < seen.len() && (#[trigger] seen[i]).vertex.hash != v.hash;
    let checked = foreign && !conflicting;
    let good_parents = parents_ok(pre.certified@, v.round, v.parents@, quorum(set.entries@.len()));
    let votes = checked && good_parents && !pre.voted@.contains(key);
    &&& post.rejected_crypto == (if !signed || (checked && v.round.0 == 0 && v.parents@.len() > 0) {
            wrapping_inc(pre.rejected_crypto)
        } else {
            pre.rejected_crypto
        })
    &&& post.proposals_seen@ == (if foreign && seen.len() == 0 { pre.proposals_seen@.push(p) } else { pre.proposals_seen@ })
    &&& (conflicting ==> acts.len() == 1 && (acts[0] matches Action::EmitSlashEvidence {
            offender, evidence: SlashEvidence::VertexEquivocation(ev) }
        && offender == v.author && ev.validator == v.author && ev.a.0.same_as(&seen[0].vertex)
        && ev.a.1 == seen[0].proposer_sig && ev.b == (v, p.proposer_sig)))
    &&& (votes ==> acts == seq![Action::BroadcastVertexPartial(VertexPartial {
            vertex_hash: v.hash,
            round: v.round,
            author: v.author,
            voter: pre.self_id,
            sig: signer.spec_sign(Dst::VertexCert.bytes(), spec_signing_bytes(v)),
        })] && post.voted@ == pre.voted@.insert(key))
    &&& (!votes && !conflicting ==> acts.len() == 0)
    &&& (!votes ==> post.voted == pre.voted)
}
}

/// Decide an inbound vertex proposal against the epoch-0 set: drop it unless
/// its hash is the content hash and the author's signature verifies; ignore
/// own echoes and rounds outside the window; answer a second, different
/// proposal of the same author and round with equivocation evidence; then vote
/// once per `(round, author)` when the parents are certified at the previous
/// round (none at round 0).
#[verifier::spinoff_prover]
#[verifier::rlimit(40)]
pub fn decide_vertex_proposal<S: SignerPort + ?Sized>(book: &mut VertexBook, set: &ValidatorSet, p: VertexProposal, signer: &S) -> (actions: Actions)
    requires
        old(book).wf(),
        set.entries@.len() <= u32::MAX,
    ensures
        final(book).wf(),
        vertex_proposal_outcome(*old(book), *final(book), *set, signer, p, actions@),
{
    let h = content_hash(&p.vertex);
    if !h.same(&p.vertex.hash) {
        proof {
            if p.vertex.hash.0@ == h.0@ {
                assert(h.0 =~= p.vertex.hash.0);
            }
        }
        book.rejected_crypto = book.rejected_crypto.wrapping_add(1);
        return Vec::new();
    }
    if !verify_proposal(set, &p) {
        book.rejected_crypto = book.rejected_crypto.wrapping_add(1);
        return Vec::new();
    }
    proof {
        let ids = set.ids();
        if !(exists|i: int| 0 <= i < ids.len() && ids[i] == p.vertex.author) {
            assert(first_index_of(ids, p.vertex.author) is None);
        }
        assert(ids.len() == set.entries@.len());
    }
    let round = p.vertex.round;
    let author = p.vertex.author;
    if author.same(&book.self_id) {
        return Vec::new();
    }
    if !round_in_window(book, round) {
        return Vec::new();
    }
    let pos = seen_positions(&book.proposals_seen, round, &author);
    if any_conflict(&book.proposals_seen, &pos, &p.vertex.hash, Ghost(round), Ghost(author)) {
        let first = book.proposals_seen[pos[0]].duplicate();
        let mut actions: Actions = Vec::new();
        actions.push(Action::EmitSlashEvidence {
            offender: author,
            evidence: SlashEvidence::VertexEquivocation(detect(author, first, p)),
        });
        return actions;
    }
    let parent_count = p.vertex.parents.len();
    let vertex_hash = p.vertex.hash;
    let msg = signing_bytes(&p.vertex);
    let parents_certified = if round.0 > 0 {
        all_certified(book, Round(round.0 - 1), &p.vertex.parents)
    } else {
        true
    };
    let ghost pv = p.vertex;
    if pos.len() == 0 {
        book.proposals_seen.push(p);
    }
    if round.0 > 0 {
        let need = match quorum_need(set) {
            Ok(q) => q,
            Err(_) => {
                return Vec::new();
            },
        };
        if parent_count < need || !parents_certified {
            return Vec::new();
        }
    } else if parent_count != 0 {
        book.rejected_crypto = book.rejected_crypto.wrapping_add(1);
        return Vec::new();
    }
    if book.voted.contains(&(round, author)) {
        return Vec::new();
    }
    book.voted.insert((round, author));
    let dst = Dst::VertexCert.to_vec();
    let sig = signer.sign_bls(dst.as_slice(), msg.as_slice());
    let mut actions: Actions = Vec::new();
    actions.push(Action::BroadcastVertexPartial(VertexPartial {
        vertex_hash,
        round,
        author,
        voter: book.self_id,
        sig,
    }));
    assert(spec_signing_bytes(pv) == msg@);
    actions
}

/// What handling an inbound vertex proposal did: without an epoch-0 set it
/// fails and changes nothing; on success the proposal was decided against the set.
pub open spec fn vertex_proposal_handled(pre: VertexBook, post: VertexBook, ctx: &HostContext, p: VertexProposal, r: Result<Actions>) -> bool {
    &&& (ctx.valset.spec_set_for(Epoch(0)) is None ==> r is Err)
    &&& (r is Err ==> post == pre)
    &&& (r is Ok ==> ctx.valset.spec_set_for(Epoch(0)) is Some
        && vertex_proposal_outcome(pre, post, ctx.valset.spec_set_for(Epoch(0))->0, ctx.signer, p, produced(r)))
}

/// Handle an inbound vertex proposal: read the epoch-0 set and decide the
/// proposal against it (see `decide_vertex_proposal`).
pub fn on_vertex_proposal(book: &mut VertexBook, cfg: &Config, p: VertexProposal, ctx: &HostContext) -> (r: Result<Actions>)
    requires
        old(book).wf(),
        set_size_fits(ctx),
    ensures
        final(book).wf(),
        vertex_proposal_handled(*old(book), *final(book), ctx, p, r),
        ctx.valset.spec_answers() && ctx.valset.spec_set_for(Epoch(0)) is Some ==> r is Ok,
{
    let set = active_set(ctx)?;
    Ok(decide_vertex_proposal(book, &set, p, ctx.signer))
}

/// Voters whose partial on `h` is collected.
pub open spec fn voters_for(m: Map<(Hash32, ValidatorId), BlsSig>, h: Hash32) -> Set<ValidatorId> {
    Set::new(|v: ValidatorId| m.contains_key((h, v)))
}

/// The voters collected for `h`.
fn voters_of(t: &Table<(Hash32, ValidatorId), BlsSig>, h: &Hash32) -> (r: KeySet<ValidatorId>)
    requires
        t.wf(),
    ensures
        r.wf(),
        r@ == voters_for(t@, *h),
        r@.finite(),
        r@.len() == r.elems().len(),
{
    let mut r: KeySet<ValidatorId> = KeySet::new();
    let mut i: usize = 0;
    while i < t.len()
        invariant
            t.wf(),
            r.wf(),
            0 <= i <= t.pairs().len(),
            forall|v: ValidatorId| r@.contains(v) <==> exists|j: int| 0 <= j < i && (#[trigger] t.pairs()[j]).0 == (*h, v),
        decreases t.pairs().len() - i,
    {
        let ((x, v), _) = t.pair(i);
        if x.same(h) {
            r.insert(v);
            assert(t.pairs()[i as int].0 == (*h, v));
        }
        i = i + 1;
    }
    assert(r@ =~= voters_for(t@, *h)) by {
        assert forall|v: ValidatorId| r@.contains(v) == voters_for(t@, *h).contains(v) by {
            if t@.contains_key((*h, v)) {
                let j = choose|j: int| 0 <= j < t.pairs().len() && #[trigger] t.pairs()[j].0 == (*h, v);
            }
            if r@.contains(v) {
                let j = choose|j: int| 0 <= j < i && (#[trigger] t.pairs()[j]).0 == (*h, v);
                t.lemma_at(j);
            }
        }
    }
    proof {
        r.lemma_len();
    }
    r
}

/// Position of the own proposal with vertex hash `h`, if any.
pub open spec fn own_at(ps: Seq<VertexProposal>, h: Hash32, i: int) -> bool {
    0 <= i < ps.len() && ps[i].vertex.hash == h
}

/// Some own proposal has vertex hash `h`.
pub open spec fn has_own(ps: Seq<VertexProposal>, h: Hash32) -> bool {
    exists|i: int| #[trigger] own_at(ps, h, i)
}

/// Find the own proposal with vertex hash `h`.
fn find_own(ps: &Vec<VertexProposal>, h: &Hash32) -> (r: Option<usize>)
    ensures
        match r {
            Some(i) => own_at(ps@, *h, i as int),
            None => !has_own(ps@, *h),
        },
{
    let mut i: usize = 0;
    while i < ps.len()
        invariant
            0 <= i <= ps.len(),
            forall|j: int| 0 <= j < i ==> !own_at(ps@, *h, j),
        decreases ps.len() - i,
    {
        if ps[i].vertex.hash.same(h) {
            return Some(i);
        }
        i = i + 1;
    }
    None
}

/// Record a certified vertex by `(round, author)`.
pub fn record_cert(book: &mut VertexBook, cv: &CertifiedVertex)
    requires
        old(book).wf(),
    ensures
        final(book).wf(),
        *final(book) == (VertexBook { certified: final(book).certified, ..*old(book) }),
        final(book).certified@ == old(book).certified@.insert((cv.vertex.round, cv.vertex.author), cv.vertex.hash),
        final(book).certified.pairs().len() >= old(book).certified.pairs().len(),
{
    book.certified.insert((cv.vertex.round, cv.vertex.author), cv.vertex.hash);
}

/// The own proposal with vertex hash `h` is certified now: no certificate was
/// emitted for it, and a quorum of the set has a collected partial on it.
pub open spec fn ready_to_certify(book: VertexBook, set: ValidatorSet, h: Hash32) -> bool {
    &&& !book.emitted_certs@.contains(h)
    &&& has_own(book.my_proposals@, h)
    &&& voters_for(book.collecting@, h).len() >= quorum(set.entries@.len())
}

/// Assemble and broadcast the certificate of the own proposal `h` once a
/// quorum of partials is collected; the certificate is checked against the
/// set before it leaves, and recorded as certified. Returns whether it was emitted.
fn finalize_own(book: &mut VertexBook, ctx: &HostContext, h: Hash32, actions: &mut Actions) -> (r: Result<bool>)
    requires
        old(book).wf(),
        set_size_fits(ctx),
    ensures
        final(book).wf(),
        *final(book) == (VertexBook { certified: final(book).certified, emitted_certs: final(book).emitted_certs, ..*old(book) }),
        final(book).certified.pairs().len() >= old(book).certified.pairs().len(),
        r != Ok::<bool, Error>(true) ==> *final(book) == *old(book) && final(actions)@ == old(actions)@,
        r is Ok ==> ctx.valset.spec_set_for(Epoch(0)) is Some || old(book).emitted_certs@.contains(h) || !has_own(old(book).my_proposals@, h),
        r == Ok::<bool, Error>(true) ==> ({
            let set = ctx.valset.spec_set_for(Epoch(0))->0;
            let pre = *old(book);
            exists|i: int| #[trigger] own_at(pre.my_proposals@, h, i) && {
                let own = pre.my_proposals@[i].vertex;
                &&& ready_to_certify(pre, set, h)
                &&& final(book).emitted_certs@ == pre.emitted_certs@.insert(h)
                &&& final(book).certified@ == pre.certified@.insert((own.round, own.author), h)
                &&& final(actions)@.len() == old(actions)@.len() + 1
                &&& final(actions)@.drop_last() == old(actions)@
                &&& final(actions)@.last() matches Action::BroadcastCertifiedVertex(cv)
                    && cv.vertex.same_as(&own) && cert_valid(cv, set)
            }
        }),
        r matches Ok(false) ==> (ctx.valset.spec_set_for(Epoch(0)) matches Some(set) ==> !ready_to_certify(*old(book), set, h)),
        old(book).emitted_certs@.contains(h) || !has_own(old(book).my_proposals@, h) ==> r == Ok::<bool, Error>(false),
        r == Ok::<bool, Error>(true) ==> final(actions)@.len() == old(actions)@.len() + 1 && final(actions)@.drop_last() == old(actions)@
            && final(actions)@.last() is BroadcastCertifiedVertex,
{
    if book.emitted_certs.contains(&h) {
        return Ok(false);
    }
    let Some(i) = find_own(&book.my_proposals, &h) else {
        return Ok(false);
    };
    let set = active_set(ctx)?;
    let need = quorum_need(&set)?;
    let voters = voters_of(&book.collecting, &h);
    if voters.len() < need {
        return Ok(false);
    }
    let bits = signer_bits(&set, &voters);
    let Some(agg) = aggregate_marked(h, &bits, &book.collecting, &set) else {
        return Err(Error::InvalidConfig("assemble vertex cert".to_owned()));
    };
    let cv = CertifiedVertex { vertex: book.my_proposals[i].vertex.duplicate(), agg };
    if !verify_certified_vertex(&cv, &set) {
        return Err(Error::InvalidConfig("self-check vertex cert".to_owned()));
    }
    book.emitted_certs.insert(h);
    record_cert(book, &cv);
    let ghost before = actions@;
    actions.push(Action::BroadcastCertifiedVertex(cv));
    assert(actions@.drop_last() =~= before);
    assert(own_at(old(book).my_proposals@, h, i as int));
    Ok(true)
}

/// The proposals at rounds `keep` and later, in order.
pub open spec fn keep_rounds(s: Seq<VertexProposal>, keep: u64) -> Seq<VertexProposal>
    decreases s.len(),
{
    if s.len() == 0 {
        Seq::empty()
    } else {
        let prev = keep_rounds(s.drop_last(), keep);
        if s.last().vertex.round.0 >= keep { prev.push(s.last()) } else { prev }
    }
}

/// What `keep_rounds` keeps is at round `keep` or later.
proof fn lemma_keep_rounds_at_least(s: Seq<VertexProposal>, keep: u64)
    ensures
        forall|i: int| 0 <= i < keep_rounds(s, keep).len() ==> (#[trigger] keep_rounds(s, keep)[i]).vertex.round.0 >= keep,
    decreases s.len(),
{
    if s.len() > 0 {
        lemma_keep_rounds_at_least(s.drop_last(), keep);
        let prev = keep_rounds(s.drop_last(), keep);
        assert forall|i: int| 0 <= i < keep_rounds(s, keep).len() implies (#[trigger] keep_rounds(s, keep)[i]).vertex.round.0 >= keep by {
            if i < prev.len() {
                assert(keep_rounds(s, keep)[i] == prev[i]);
            }
        }
    }
}

/// Nothing older than one round below the current one is held: no
/// certificate, vote, own proposal or seen proposal.
pub open spec fn pruned(book: VertexBook) -> bool {
    let keep = keep_from(book);
    &&& forall|k: (Round, ValidatorId)| #[trigger] book.certified@.contains_key(k) ==> k.0.0 >= keep
    &&& forall|k: (Round, ValidatorId)| #[trigger] book.voted@.contains(k) ==> k.0.0 >= keep
    &&& forall|i: int| 0 <= i < book.my_proposals@.len() ==> (#[trigger] book.my_proposals@[i]).vertex.round.0 >= keep
    &&& forall|i: int| 0 <= i < book.proposals_seen@.len() ==> (#[trigger] book.proposals_seen@[i]).vertex.round.0 >= keep
}

/// What `keep_rounds` keeps comes from the input.
proof fn lemma_keep_rounds_sub(s: Seq<VertexProposal>, keep: u64)
    ensures
        forall|x: VertexProposal| keep_rounds(s, keep).contains(x) ==> s.contains(x),
    decreases s.len(),
{
    if s.len() > 0 {
        lemma_keep_rounds_sub(s.drop_last(), keep);
        assert forall|x: VertexProposal| keep_rounds(s, keep).contains(x) implies s.contains(x) by {
            if keep_rounds(s.drop_last(), keep).contains(x) {
                assert(s.drop_last().contains(x));
                let k = choose|k: int| 0 <= k < s.drop_last().len() && s.drop_last()[k] == x;
                assert(s[k] == x);
            } else {
                assert(x == s.last());
                assert(s[s.len() - 1] == x);
            }
        }
    }
}

/// Filtering by round keeps vertex hashes distinct.
proof fn lemma_keep_rounds_unique(s: Seq<VertexProposal>, keep: u64)
    requires
        proposals_unique(s),
    ensures
        proposals_unique(keep_rounds(s, keep)),
    decreases s.len(),
{
    if s.len() > 0 {
        let d = s.drop_last();
        assert(proposals_unique(d)) by {
            assert forall|i: int, j: int| 0 <= i < d.len() && 0 <= j < d.len() && i != j implies (#[trigger] d[i]).vertex.hash != (#[trigger] d[j]).vertex.hash by {
                assert(d[i] == s[i] && d[j] == s[j]);
            }
        }
        lemma_keep_rounds_unique(d, keep);
        lemma_keep_rounds_sub(d, keep);
        let prev = keep_rounds(d, keep);
        if s.last().vertex.round.0 >= keep {
            let r = prev.push(s.last());
            assert forall|i: int, j: int| 0 <= i < r.len() && 0 <= j < r.len() && i != j implies (#[trigger] r[i]).vertex.hash != (#[trigger] r[j]).vertex.hash by {
                if i < prev.len() && j < prev.len() {
                    assert(r[i] == prev[i] && r[j] == prev[j]);
                } else {
                    let o = if i < prev.len() { i } else { j };
                    assert(prev.contains(prev[o]));
                    assert(d.contains(r[o]));
                    let k = choose|k: int| 0 <= k < d.len() && d[k] == r[o];
                    assert(s[k] == r[o] && s[s.len() - 1] == s.last());
                }
            }
        }
    }
}

/// Keep the proposals at rounds `keep` and later.
fn retain_rounds(v: &mut Vec<VertexProposal>, keep: u64)
    ensures
        final(v)@ == keep_rounds(old(v)@, keep),
{
    let mut old_v: Vec<VertexProposal> = Vec::new();
    std::mem::swap(&mut old_v, v);
    let ghost src = old_v@;
    let mut i: usize = 0;
    let mut rest = old_v;
    let mut out: Vec<VertexProposal> = Vec::new();
    assert(src.len() == rest.len());
    while rest.len() > 0
        invariant
            src.len() <= usize::MAX,
            i + rest@.len() == src.len(),
            rest@ == src.subrange(i as int, src.len() as int),
            out@ == keep_rounds(src.subrange(0, i as int), keep),
        decreases rest@.len(),
    {
        let p = rest.remove(0);
        assert(p == src[i as int]);
        assert(src.subrange(0, i + 1).drop_last() =~= src.subrange(0, i as int));
        assert(src.subrange(0, i + 1).last() == src[i as int]);
        if p.vertex.round.0 >= keep {
            out.push(p);
        }
        i = i + 1;
        assert(rest@ =~= src.subrange(i as int, src.len() as int));
    }
    assert(src.subrange(0, src.len() as int) =~= src);
    *v = out;
}

/// The first round kept by pruning: one below the current round.
pub open spec fn keep_from(book: VertexBook) -> u64 {
    if book.current_round.0 == 0 { 0 } else { (book.current_round.0 - 1) as u64 }
}

/// Drop certificates, proposals and votes below `keep_from`, and collection
/// state of own proposals no longer kept.
fn prune(book: &mut VertexBook)
    requires
        old(book).wf(),
    ensures
        final(book).wf(),
        ({
            let pre = *old(book);
            let post = *final(book);
            let keep = keep_from(pre);
            &&& post == VertexBook {
                certified: post.certified,
                my_proposals: post.my_proposals,
                collecting: post.collecting,
                emitted_certs: post.emitted_certs,
                proposals_seen: post.proposals_seen,
                voted: post.voted,
                ..pre
            }
            &&& forall|k: (Round, ValidatorId)| #[trigger] post.certified@.contains_key(k)
                <==> pre.certified@.contains_key(k) && k.0.0 >= keep
            &&& forall|k: (Round, ValidatorId)| #[trigger] post.certified@.contains_key(k) ==> post.certified@[k] == pre.certified@[k]
            &&& post.my_proposals@ == keep_rounds(pre.my_proposals@, keep)
            &&& post.proposals_seen@ == keep_rounds(pre.proposals_seen@, keep)
            &&& forall|k: (Round, ValidatorId)| #[trigger] post.voted@.contains(k) <==> pre.voted@.contains(k) && k.0.0 >= keep
            &&& forall|k: (Hash32, ValidatorId)| #[trigger] post.collecting@.contains_key(k)
                <==> pre.collecting@.contains_key(k) && has_own(post.my_proposals@, k.0)
            &&& forall|k: (Hash32, ValidatorId)| #[trigger] post.collecting@.contains_key(k) ==> post.collecting@[k] == pre.collecting@[k]
            &&& forall|h: Hash32| #[trigger] post.emitted_certs@.contains(h) <==> pre.emitted_certs@.contains(h) && has_own(post.my_proposals@, h)
            &&& pruned(post)
        }),
{
    let keep = book.current_round.0.saturating_sub(1);
    let ghost pre = *book;
    proof {
        lemma_keep_rounds_unique(pre.my_proposals@, keep);
        lemma_keep_rounds_at_least(pre.my_proposals@, keep);
        lemma_keep_rounds_at_least(pre.proposals_seen@, keep);
    }

    let mut certified: Table<(Round, ValidatorId), Hash32> = Table::new();
    let mut i: usize = 0;
    while i < book.certified.len()
        invariant
            *book == pre,
            pre.wf(),
            certified.wf(),
            0 <= i <= pre.certified.pairs().len(),
            forall|k: (Round, ValidatorId)| #[trigger] certified@.contains_key(k)
                <==> (exists|j: int| 0 <= j < i && (#[trigger] pre.certified.pairs()[j]).0 == k) && k.0.0 >= keep,
            forall|k: (Round, ValidatorId)| #[trigger] certified@.contains_key(k) ==> certified@[k] == pre.certified@[k],
        decreases pre.certified.pairs().len() - i,
    {
        let (k, h) = book.certified.pair(i);
        proof {
            pre.certified.lemma_at(i as int);
        }
        if k.0.0 >= keep {
            certified.insert(k, h);
        }
        i = i + 1;
    }
    proof {
        assert forall|k: (Round, ValidatorId)| #[trigger] certified@.contains_key(k) <==> pre.certified@.contains_key(k) && k.0.0 >= keep by {
            if pre.certified@.contains_key(k) {
                let j = choose|j: int| 0 <= j < pre.certified.pairs().len() && #[trigger] pre.certified.pairs()[j].0 == k;
            }
            if exists|j: int| 0 <= j < i && (#[trigger] pre.certified.pairs()[j]).0 == k {
                let j = choose|j: int| 0 <= j < i && (#[trigger] pre.certified.pairs()[j]).0 == k;
                pre.certified.lemma_at(j);
            }
        }
    }
    book.certified = certified;

    retain_rounds(&mut book.my_proposals, keep);
    retain_rounds(&mut book.proposals_seen, keep);

    let mut voted: KeySet<(Round, ValidatorId)> = KeySet::new();
    let mut j: usize = 0;
    while j < book.voted.len()
        invariant
            book.voted == pre.voted,
            pre.wf(),
            voted.wf(),
            0 <= j <= pre.voted.elems().len(),
            forall|k: (Round, ValidatorId)| #[trigger] voted@.contains(k)
                <==> (exists|t: int| 0 <= t < j && pre.voted.elems()[t] == k) && k.0.0 >= keep,
        decreases pre.voted.elems().len() - j,
    {
        let k = book.voted.item(j);
        if k.0.0 >= keep {
            voted.insert(k);
        }
        j = j + 1;
    }
    proof {
        assert forall|k: (Round, ValidatorId)| #[trigger] voted@.contains(k) <==> pre.voted@.contains(k) && k.0.0 >= keep by {
            if pre.voted@.contains(k) {
                let t = choose|t: int| 0 <= t < pre.voted.elems().len() && pre.voted.elems()[t] == k;
            }
        }
    }
    book.voted = voted;

    let mut collecting: Table<(Hash32, ValidatorId), BlsSig> = Table::new();
    let mut c: usize = 0;
    while c < book.collecting.len()
        invariant
            book.collecting == pre.collecting,
            pre.wf(),
            collecting.wf(),
            0 <= c <= pre.collecting.pairs().len(),
            forall|k: (Hash32, ValidatorId)| #[trigger] collecting@.contains_key(k)
                <==> (exists|t: int| 0 <= t < c && (#[trigger] pre.collecting.pairs()[t]).0 == k) && has_own(book.my_proposals@, k.0),
            forall|k: (Hash32, ValidatorId)| #[trigger] collecting@.contains_key(k) ==> collecting@[k] == pre.collecting@[k],
        decreases pre.collecting.pairs().len() - c,
    {
        let (k, sig) = book.collecting.pair(c);
        proof {
            pre.collecting.lemma_at(c as int);
        }
        if find_own(&book.my_proposals, &k.0).is_some() {
            collecting.insert(k, sig);
        }
        c = c + 1;
    }
    proof {
        assert forall|k: (Hash32, ValidatorId)| #[trigger] collecting@.contains_key(k)
            <==> pre.collecting@.contains_key(k) && has_own(book.my_proposals@, k.0) by {
            if pre.collecting@.contains_key(k) {
                let t = choose|t: int| 0 <= t < pre.collecting.pairs().len() && #[trigger] pre.collecting.pairs()[t].0 == k;
            }
            if exists|t: int| 0 <= t < c && (#[trigger] pre.collecting.pairs()[t]).0 == k {
                let t = choose|t: int| 0 <= t < c && (#[trigger] pre.collecting.pairs()[t]).0 == k;
                pre.collecting.lemma_at(t);
            }
        }
    }
    book.collecting = collecting;

    let mut emitted: KeySet<Hash32> = KeySet::new();
    let mut e: usize = 0;
    while e < book.emitted_certs.len()
        invariant
            book.emitted_certs == pre.emitted_certs,
            pre.wf(),
            emitted.wf(),
            0 <= e <= pre.emitted_certs.elems().len(),
            forall|h: Hash32| #[trigger] emitted@.contains(h)
                <==> (exists|t: int| 0 <= t < e && pre.emitted_certs.elems()[t] == h) && has_own(book.my_proposals@, h),
        decreases pre.emitted_certs.elems().len() - e,
    {
        let h = book.emitted_certs.item(e);
        if find_own(&book.my_proposals, &h).is_some() {
            emitted.insert(h);
        }
        e = e + 1;
    }
    proof {
        assert forall|h: Hash32| #[trigger] emitted@.contains(h) <==> pre.emitted_certs@.contains(h) && has_own(book.my_proposals@, h) by {
            if pre.emitted_certs@.contains(h) {
                let t = choose|t: int| 0 <= t < pre.emitted_certs.elems().len() && pre.emitted_certs.elems()[t] == h;
            }
        }
    }
    book.emitted_certs = emitted;
}

/// `pr` is this validator's signed proposal for `round` over `parents`, sealed.
pub open spec fn own_vertex_proposal(pr: VertexProposal, round: Round, author: ValidatorId, parents: Seq<Hash32>, ctx: &HostContext) -> bool {
    &&& pr.vertex.round == round
    &&& pr.vertex.author == author
    &&& pr.vertex.parents@ == parents
    &&& pr.vertex.hash.0@ == spec_content_hash(pr.vertex)
    &&& pr.proposer_sig == ctx.signer.spec_sign(Dst::VertexProposal.bytes(), spec_signing_bytes(pr.vertex))
}

/// This node's own proposal `pr` is recorded in `post`: the round moved to
/// its round and was marked voted, the round timer re-armed with the next id,
/// the proposal stored (replacing one with the same hash) and recorded as
/// seen, and the own certificate partial collected. Only certificate state
/// may change besides.
pub open spec fn own_proposal_recorded(pre: VertexBook, post: VertexBook, pr: VertexProposal, ctx: &HostContext) -> bool {
    &&& post == (VertexBook {
            current_round: post.current_round,
            voted: post.voted,
            round_timer: post.round_timer,
            timer_retries: post.timer_retries,
            timers: post.timers,
            collecting: post.collecting,
            my_proposals: post.my_proposals,
            proposals_seen: post.proposals_seen,
            certified: post.certified,
            emitted_certs: post.emitted_certs,
            ..pre
        })
    &&& post.current_round == pr.vertex.round
    &&& post.voted@ == pre.voted@.insert((pr.vertex.round, pre.self_id))
    &&& post.timer_retries == 0
    &&& post.round_timer == Some(TimerId(pre.timers.spec_next()))
    &&& post.timers.spec_next() == next_id(pre.timers.spec_next())
    &&& post.collecting@ == pre.collecting@.insert((pr.vertex.hash, pre.self_id),
            ctx.signer.spec_sign(Dst::VertexCert.bytes(), spec_signing_bytes(pr.vertex)))
    &&& exists|i: int| 0 <= i < post.my_proposals@.len() && (#[trigger] post.my_proposals@[i]).same_as(&pr)
    &&& forall|q: VertexProposal| #[trigger] post.my_proposals@.contains(q) ==> q.same_as(&pr)
            || (pre.my_proposals@.contains(q) && q.vertex.hash != pr.vertex.hash)
    &&& post.proposals_seen@.len() == pre.proposals_seen@.len() + 1
    &&& post.proposals_seen@.drop_last() == pre.proposals_seen@
    &&& post.proposals_seen@.last().same_as(&pr)
}

/// The own proposal for `round` on `parents`, carrying `blobs`: the vertex is
/// sealed with its content hash and signed under the proposal tag.
pub fn build_own_proposal<S: SignerPort + ?Sized>(
    self_id: ValidatorId,
    round: Round,
    parents: Vec<Hash32>,
    blobs: &Vec<BlobRef>,
    signer: &S,
) -> (pr: VertexProposal)
    ensures
        pr.vertex.round == round,
        pr.vertex.author == self_id,
        pr.vertex.parents@ == parents@,
        pr.vertex.blobs@ == blobs@,
        pr.vertex.hash.0@ == spec_content_hash(pr.vertex),
        pr.proposer_sig == signer.spec_sign(Dst::VertexProposal.bytes(), spec_signing_bytes(pr.vertex)),
{
    let carried = crate::bytes::copy_vec(blobs);
    let mut vertex = Vertex { round, author: self_id, parents, blobs: carried, hash: Hash32::zero() };
    let ghost unsealed = vertex;
    seal_hash(&mut vertex);
    proof {
        assert(spec_content_hash(vertex) == spec_content_hash(unsealed));
    }
    let msg = signing_bytes(&vertex);
    let proposal_dst = Dst::VertexProposal.to_vec();
    let proposer_sig = signer.sign_bls(proposal_dst.as_slice(), msg.as_slice());
    VertexProposal { vertex, proposer_sig }
}

/// The actions of one own proposal: cancel the previous round timer (if
/// any), arm a new one, broadcast the proposal, and possibly its certificate.
pub open spec fn proposal_actions(
    new: Seq<Action>,
    prev_timer: Option<TimerId>,
    id: TimerId,
    delay: u128,
    round: Round,
    author: ValidatorId,
    parents: Seq<Hash32>,
    ctx: &HostContext,
) -> bool {
    let k: int = if prev_timer is Some { 1 } else { 0 };
    &&& (prev_timer matches Some(t) ==> new[0] == Action::CancelTimer(t))
    &&& (new.len() == k + 2 || new.len() == k + 3)
    &&& new[k] == (Action::ScheduleTimer { id, delay_nanos: delay })
    &&& (new[k + 1] matches Action::BroadcastVertexProposal(pr) && own_vertex_proposal(pr, round, author, parents, ctx))
    &&& (new.len() == k + 3 ==> new[k + 2] is BroadcastCertifiedVertex)
}

/// Store `p`, replacing the stored proposal with the same vertex hash.
fn upsert_proposal(v: &mut Vec<VertexProposal>, p: VertexProposal)
    requires
        proposals_unique(old(v)@),
    ensures
        proposals_unique(final(v)@),
        final(v)@.contains(p),
        forall|q: VertexProposal| #[trigger] final(v)@.contains(q) ==> q == p || (old(v)@.contains(q) && q.vertex.hash != p.vertex.hash),
{
    let mut i: usize = 0;
    while i < v.len()
        invariant
            0 <= i <= v.len(),
            v@ == old(v)@,
            proposals_unique(v@),
            forall|j: int| 0 <= j < i ==> (#[trigger] v@[j]).vertex.hash != p.vertex.hash,
        decreases v.len() - i,
    {
        if v[i].vertex.hash.same(&p.vertex.hash) {
            let ghost pre = v@;
            v.set(i, p);
            assert(v@[i as int] == p);
            assert forall|q: VertexProposal| #[trigger] v@.contains(q) implies q == p || (pre.contains(q) && q.vertex.hash != p.vertex.hash) by {
                let k = choose|k: int| 0 <= k < v@.len() && v@[k] == q;
                if k != i {
                    assert(pre[k] == q);
                    assert(pre[k].vertex.hash != pre[i as int].vertex.hash);
                }
            }
            assert(proposals_unique(v@)) by {
                assert forall|a: int, b: int| 0 <= a < v@.len() && 0 <= b < v@.len() && a != b implies
                    (#[trigger] v@[a]).vertex.hash != (#[trigger] v@[b]).vertex.hash by {
                    if a != i && b != i {
                        assert(v@[a] == pre[a] && v@[b] == pre[b]);
                    } else if a == i {
                        assert(v@[b] == pre[b]);
                    } else {
                        assert(v@[a] == pre[a]);
                    }
                }
            }
            return;
        }
        i = i + 1;
    }
    let ghost pre = v@;
    v.push(p);
    assert(v@[pre.len() as int] == p);
    assert forall|q: VertexProposal| #[trigger] v@.contains(q) implies q == p || (pre.contains(q) && q.vertex.hash != p.vertex.hash) by {
        let k = choose|k: int| 0 <= k < v@.len() && v@[k] == q;
        if k < pre.len() {
            assert(pre[k] == q);
        }
    }
    assert(proposals_unique(v@)) by {
        assert forall|a: int, b: int| 0 <= a < v@.len() && 0 <= b < v@.len() && a != b implies
            (#[trigger] v@[a]).vertex.hash != (#[trigger] v@[b]).vertex.hash by {
            if a < pre.len() && b < pre.len() {
                assert(v@[a] == pre[a] && v@[b] == pre[b]);
            } else if a < pre.len() {
                assert(v@[a] == pre[a]);
            } else {
                assert(v@[b] == pre[b]);
            }
        }
    }
}

/// Build, sign, seed and broadcast this node's proposal for `round`: the
/// proposal carries the pending blobs, the own partial is collected but not
/// broadcast, the round timer is re-armed, and the certificate goes out at
/// once when the own partial already makes a quorum. Returns whether it did.
fn propose_round(book: &mut VertexBook, cfg: &Config, ctx: &HostContext, round: Round, parents: Vec<Hash32>, actions: &mut Actions) -> (r: Result<bool>)
    requires
        old(book).wf(),
        set_size_fits(ctx),
    ensures
        final(book).wf(),
        final(book).self_id == old(book).self_id,
        final(book).started == old(book).started,
        final(book).current_round == round,
        final(book).voted@ == old(book).voted@.insert((round, old(book).self_id)),
        final(book).round_timer == Some(TimerId(old(book).timers.spec_next())),
        final(book).timers.spec_next() == next_id(old(book).timers.spec_next()),
        final(book).timer_retries == 0,
        final(book).rejected_crypto == old(book).rejected_crypto,
        final(book).partial_conflicts == old(book).partial_conflicts,
        final(book).rounds_stalled == old(book).rounds_stalled,
        final(actions)@.len() > old(actions)@.len(),
        final(actions)@.subrange(0, old(actions)@.len() as int) == old(actions)@,
        proposal_actions(final(actions)@.subrange(old(actions)@.len() as int, final(actions)@.len() as int), old(book).round_timer,
            TimerId(old(book).timers.spec_next()), spec_round_delay(*cfg, 0), round, old(book).self_id, parents@, ctx),
        r == Ok::<bool, Error>(true) <==> final(actions)@.len() == old(actions)@.len() + (if old(book).round_timer is Some { 4int } else { 3int }),
        final(actions)@[old(actions)@.len() + (if old(book).round_timer is Some { 2int } else { 1int })] matches Action::BroadcastVertexProposal(pr)
            && own_proposal_recorded(*old(book), *final(book), pr, ctx),
        r != Ok::<bool, Error>(true) ==> final(book).certified == old(book).certified && final(book).emitted_certs == old(book).emitted_certs,
{
    let ghost pre = *book;
    let blobs = ctx.pending_blobs.drain();
    let proposal = build_own_proposal(book.self_id, round, parents, &blobs, ctx.signer);
    let msg = signing_bytes(&proposal.vertex);
    let cert_dst = Dst::VertexCert.to_vec();
    let self_sig = ctx.signer.sign_bls(cert_dst.as_slice(), msg.as_slice());
    let hash = proposal.vertex.hash;
    let stored_copy = proposal.duplicate();
    let ghost stored = stored_copy;
    upsert_proposal(&mut book.my_proposals, stored_copy);
    book.collecting.insert((hash, book.self_id), self_sig);
    book.voted.insert((round, book.self_id));
    book.proposals_seen.push(proposal.duplicate());
    book.current_round = round;
    ctx.pending_blobs.confirm_attached(blobs.as_slice());

    let ghost start = actions@;
    if let Some(prev) = book.round_timer {
        actions.push(Action::CancelTimer(prev));
    }
    let id = book.timers.allocate();
    book.round_timer = Some(id);
    book.timer_retries = 0;
    actions.push(Action::ScheduleTimer { id, delay_nanos: round_delay_nanos(cfg, 0) });
    actions.push(Action::BroadcastVertexProposal(proposal));
    let ghost mid = actions@;
    let ghost mid_book = *book;
    let r = finalize_own(book, ctx, hash, actions);
    proof {
        let k: int = if old(book).round_timer is Some { 1 } else { 0 };
        let new = actions@.subrange(start.len() as int, actions@.len() as int);
        assert(actions@.subrange(0, start.len() as int) =~= start) by {
            if actions@ != mid {
                assert(actions@.drop_last() == mid);
                assert(actions@.subrange(0, start.len() as int) =~= mid.subrange(0, start.len() as int));
            }
        }
        assert(mid.len() == start.len() + k + 2);
        if r == Ok::<bool, Error>(true) {
            assert(actions@.len() == mid.len() + 1);
        } else {
            assert(actions@ == mid);
        }
        assert(new[k] == mid[start.len() + k]);
        assert(new[k + 1] == mid[start.len() + k + 1]);
        if k == 1 {
            assert(new[0] == mid[start.len() as int]);
        }
        assert(start == old(actions)@);
        assert(r == Ok::<bool, Error>(true) <==> actions@.len() == start.len() + k + 3);
        assert(actions@[start.len() + k + 1] == Action::BroadcastVertexProposal(proposal));
        assert(spec_signing_bytes(proposal.vertex) == msg@);
        assert(book.my_proposals@.contains(stored));
        let i = choose|i: int| 0 <= i < book.my_proposals@.len() && book.my_proposals@[i] == stored;
        assert(book.my_proposals@[i].same_as(&proposal));
        assert(book.proposals_seen@.drop_last() =~= pre.proposals_seen@);
        assert(own_proposal_recorded(pre, *book, proposal, ctx));
    }
    r
}

/// Parents for the round after the current one: the hashes certified at the
/// current round of the `need` smallest authors, in increasing author order.
pub fn next_parents(book: &VertexBook, need: usize) -> (parents: Vec<Hash32>)
    requires
        book.wf(),
        need <= authors_at(book.certified@, book.current_round).len(),
    ensures
        parents@.len() == need,
        exists|auth: Seq<ValidatorId>| {
            &&& auth.len() == need
            &&& lowest_authors(auth, authors_at(book.certified@, book.current_round))
            &&& forall|i: int| 0 <= i < need ==> #[trigger] parents@[i] == book.certified@[(book.current_round, auth[i])]
        },
{
    let certs = certs_at(&book.certified, book.current_round);
    proof {
        lemma_certs_at_count_map(book.certified@, book.current_round, certs@);
    }
    pick_parents(&certs, need, Ghost(book.certified@), Ghost(book.current_round))
}

/// Certificate-driven advancement: while the current round holds a quorum of
/// certificates, propose the next round on them; then prune old state. It
/// proposes at most once per certificate known on entry, plus once, and never
/// past round `u64::MAX`.
fn maybe_advance(book: &mut VertexBook, cfg: &Config, ctx: &HostContext, actions: &mut Actions) -> (r: Result<()>)
    requires
        old(book).wf(),
        set_size_fits(ctx),
    ensures
        final(book).wf(),
        final(book).self_id == old(book).self_id,
        final(book).started == old(book).started,
        final(book).current_round.0 >= old(book).current_round.0,
        final(book).rejected_crypto == old(book).rejected_crypto,
        final(book).partial_conflicts == old(book).partial_conflicts,
        final(book).rounds_stalled == old(book).rounds_stalled,
        !old(book).started ==> r is Ok && *final(book) == *old(book) && final(actions)@ == old(actions)@,
        final(actions)@.len() >= old(actions)@.len(),
        final(actions)@.subrange(0, old(actions)@.len() as int) == old(actions)@,
        old(book).started && ctx.valset.spec_set_for(Epoch(0)) is None ==> r is Err,
        old(book).started && (ctx.valset.spec_set_for(Epoch(0)) is None || ctx.valset.spec_set_for(Epoch(0))->0.entries@.len() == 0)
            ==> r is Err && *final(book) == *old(book) && final(actions)@ == old(actions)@,
        old(book).started && r is Ok ==> advance_outcome(old(book).current_round, old(book).certified@,
            old(book).certified.pairs().len(), *final(book), ctx.valset.spec_set_for(Epoch(0))->0),
        old(book).started && r is Ok && final(book).current_round.0 > old(book).current_round.0 ==> proposes_round(final(actions)@,
            old(actions)@.len() as int, final(book).current_round, old(book).self_id, ctx.valset.spec_set_for(Epoch(0))->0),
{
    if !book.started {
        return Ok(());
    }
    let set = active_set(ctx)?;
    let need = quorum_need(&set)?;
    let mut fuel: usize = book.certified.len();
    let ghost start = actions@;
    let ghost len0: int = old(book).certified.pairs().len() as int;
    let ghost need0: nat = quorum(set.entries@.len());
    loop
        invariant_except_break
            book.current_round.0 - old(book).current_round.0 == len0 - fuel,
        invariant
            book.wf(),
            set_size_fits(ctx),
            book.self_id == old(book).self_id,
            book.started == old(book).started,
            old(book).started,
            book.current_round.0 >= old(book).current_round.0,
            book.rejected_crypto == old(book).rejected_crypto,
            book.partial_conflicts == old(book).partial_conflicts,
            book.rounds_stalled == old(book).rounds_stalled,
            start == old(actions)@,
            actions@.len() >= start.len(),
            actions@.subrange(0, start.len() as int) == start,
            ctx.valset.spec_set_for(Epoch(0)) == Some(set),
            set.entries@.len() > 0,
            need == need0,
            need0 == quorum(set.entries@.len()),
            len0 == old(book).certified.pairs().len(),
            fuel <= len0,
            book.current_round == old(book).current_round ==> book.certified == old(book).certified,
            book.current_round.0 > old(book).current_round.0 ==> authors_at(old(book).certified@, old(book).current_round).len() >= need0
                && old(book).current_round.0 < u64::MAX,
            book.current_round.0 > old(book).current_round.0 ==> proposes_round(actions@, start.len() as int, book.current_round,
                old(book).self_id, set),
        ensures
            book.wf(),
            book.self_id == old(book).self_id,
            book.started == old(book).started,
            book.current_round.0 >= old(book).current_round.0,
            book.rejected_crypto == old(book).rejected_crypto,
            book.partial_conflicts == old(book).partial_conflicts,
            book.rounds_stalled == old(book).rounds_stalled,
            actions@.len() >= start.len(),
            actions@.subrange(0, start.len() as int) == start,
            book.current_round.0 > old(book).current_round.0 <==> authors_at(old(book).certified@, old(book).current_round).len() >= need0
                && old(book).current_round.0 < u64::MAX,
            authors_at(book.certified@, book.current_round).len() < need0 || book.current_round.0 == u64::MAX
                || book.current_round.0 - old(book).current_round.0 > len0,
            book.current_round.0 > old(book).current_round.0 ==> proposes_round(actions@, start.len() as int, book.current_round,
                old(book).self_id, set),
        decreases fuel,
    {
        let r = book.current_round;
        let count = book.certified_count_at(r);
        if count < need {
            break;
        }
        if r.0 == u64::MAX {
            break;
        }
        let parents = next_parents(book, need);
        let ghost before = actions@;
        let ghost prev_timer = book.round_timer;
        propose_round(book, cfg, ctx, Round(r.0 + 1), parents, actions)?;
        assert(actions@.subrange(0, start.len() as int) =~= before.subrange(0, start.len() as int));
        proof {
            let k: int = if prev_timer is Some { 1 } else { 0 };
            let new = actions@.subrange(before.len() as int, actions@.len() as int);
            assert(new[k + 1] == actions@[before.len() + k + 1]);
            assert(proposes_round(actions@, start.len() as int, book.current_round, old(book).self_id, set));
        }
        if fuel == 0 {
            break;
        }
        fuel = fuel - 1;
    }
    let ghost pre_prune = *book;
    prune(book);
    proof {
        assert(authors_at(book.certified@, book.current_round) =~= authors_at(pre_prune.certified@, pre_prune.current_round));
    }
    Ok(())
}

/// Some action of `acts` from position `from` on broadcasts this node's own
/// proposal for `round`, on a quorum of parents for `set`.
pub open spec fn proposes_round(acts: Seq<Action>, from: int, round: Round, author: ValidatorId, set: ValidatorSet) -> bool {
    exists|i: int| from <= i < acts.len() && (#[trigger] acts[i] matches Action::BroadcastVertexProposal(pr)
        && pr.vertex.round == round && pr.vertex.author == author && pr.vertex.parents@.len() == quorum(set.entries@.len()))
}

/// What certificate-driven advancement leaves behind, for the validator set
/// `set`: it moved past the starting round exactly when that round held a
/// quorum of certificates (and was not the last round), and it stopped at a
/// round lacking a quorum, at the last round, or after more rounds than the
/// book held certificates on entry.
pub open spec fn advance_outcome(
    start: Round,
    certs: Map<(Round, ValidatorId), Hash32>,
    held: nat,
    post: VertexBook,
    set: ValidatorSet,
) -> bool {
    let need = quorum(set.entries@.len());
    &&& post.current_round.0 > start.0 <==> authors_at(certs, start).len() >= need && start.0 < u64::MAX
    &&& authors_at(post.certified@, post.current_round).len() < need || post.current_round.0 == u64::MAX
        || post.current_round.0 - start.0 > held
    &&& pruned(post)
}

/// Assemble the own certificate for `h` when it has a quorum, then advance.
fn try_finalize(book: &mut VertexBook, cfg: &Config, ctx: &HostContext, h: Hash32, actions: &mut Actions) -> (r: Result<()>)
    requires
        old(book).wf(),
        set_size_fits(ctx),
    ensures
        final(book).wf(),
        final(book).self_id == old(book).self_id,
        final(book).started == old(book).started,
        final(book).current_round.0 >= old(book).current_round.0,
        final(book).rejected_crypto == old(book).rejected_crypto,
        final(book).partial_conflicts == old(book).partial_conflicts,
        final(book).rounds_stalled == old(book).rounds_stalled,
        final(actions)@.len() >= old(actions)@.len(),
        final(actions)@.subrange(0, old(actions)@.len() as int) == old(actions)@,
        final(actions)@.len() == old(actions)@.len() ==> *final(book) == *old(book),
        old(book).emitted_certs@.contains(h) || !has_own(old(book).my_proposals@, h) ==> r is Ok && final(actions)@ == old(actions)@,
        final(actions)@.len() > old(actions)@.len() ==> ({
            let set = ctx.valset.spec_set_for(Epoch(0))->0;
            &&& ctx.valset.spec_set_for(Epoch(0)) is Some
            &&& ready_to_certify(*old(book), set, h)
            &&& final(actions)@[old(actions)@.len() as int] matches Action::BroadcastCertifiedVertex(cv)
                && cv.vertex.hash == h && cert_valid(cv, set)
        }),
        r is Ok ==> (ctx.valset.spec_set_for(Epoch(0)) matches Some(set) && ready_to_certify(*old(book), set, h)
            ==> final(actions)@.len() > old(actions)@.len()),
        r is Ok && final(actions)@.len() > old(actions)@.len() && old(book).started ==> exists|i: int|
            #[trigger] own_at(old(book).my_proposals@, h, i) && advance_outcome(old(book).current_round,
                old(book).certified@.insert((old(book).my_proposals@[i].vertex.round, old(book).my_proposals@[i].vertex.author), h),
                old(book).certified.pairs().len(), *final(book), ctx.valset.spec_set_for(Epoch(0))->0),
{
    let ghost pre_actions = actions@;
    let emitted = finalize_own(book, ctx, h, actions)?;
    if emitted {
        let ghost mid = actions@;
        maybe_advance(book, cfg, ctx, actions)?;
        proof {
            assert(actions@.subrange(0, pre_actions.len() as int) =~= mid.subrange(0, pre_actions.len() as int));
            assert(actions@[pre_actions.len() as int] == mid[pre_actions.len() as int]);
        }
    }
    Ok(())
}

/// One-shot bootstrap: propose round 0 with no parents.
pub fn genesis_propose(book: &mut VertexBook, cfg: &Config, ctx: &HostContext) -> (r: Result<Actions>)
    requires
        old(book).wf(),
        set_size_fits(ctx),
    ensures
        final(book).wf(),
        final(book).self_id == old(book).self_id,
        old(book).started ==> r is Ok && produced(r).len() == 0 && *final(book) == *old(book),
        !old(book).started ==> final(book).started,
        !old(book).started && r is Ok ==> proposal_actions(produced(r).subrange(0, (if old(book).round_timer is Some { 3int } else { 2int })),
            old(book).round_timer, TimerId(old(book).timers.spec_next()), spec_round_delay(*cfg, 0), Round(0), old(book).self_id, Seq::empty(), ctx)
            && produced(r).len() >= (if old(book).round_timer is Some { 3int } else { 2int }),
        !old(book).started && r is Ok && produced(r).len() == (if old(book).round_timer is Some { 3int } else { 2int }) ==> ({
            let k: int = if old(book).round_timer is Some { 1 } else { 0 };
            &&& produced(r)[k + 1] matches Action::BroadcastVertexProposal(pr)
                && own_proposal_recorded(VertexBook { started: true, ..*old(book) }, *final(book), pr, ctx)
            &&& final(book).certified == old(book).certified
            &&& final(book).emitted_certs == old(book).emitted_certs
        }),
{
    let mut actions: Actions = Vec::new();
    if book.started {
        return Ok(actions);
    }
    book.started = true;
    let emitted = propose_round(book, cfg, ctx, Round(0), Vec::new(), &mut actions)?;
    let ghost k: int = if old(book).round_timer is Some { 1 } else { 0 };
    let ghost proposed = actions@;
    if emitted {
        maybe_advance(book, cfg, ctx, &mut actions)?;
    }
    proof {
        assert(actions@.subrange(0, k + 2) =~= proposed.subrange(0, k + 2));
        let new = actions@.subrange(0, k + 2);
        assert(new[k] == proposed[k]);
        assert(new[k + 1] == proposed[k + 1]);
        if k == 1 {
            assert(new[0] == proposed[0]);
        }
    }
    Ok(actions)
}

/// What handling an inbound vertex partial did (see `on_vertex_partial`).
pub open spec fn vertex_partial_handled(pre: VertexBook, post: VertexBook, ctx: &HostContext, bp: VertexPartial, r: Result<Actions>) -> bool {
    &&& (post.self_id == pre.self_id)
    &&& (post.current_round.0 >= pre.current_round.0)
    &&& ({
        let h = bp.vertex_hash;
        let mine = bp.author == pre.self_id && bp.voter != pre.self_id && has_own(pre.my_proposals@, h);
        let known = pre.collecting@.contains_key((h, bp.voter));
        &&& (!mine ==> r is Ok && produced(r).len() == 0 && post == pre)
        &&& (mine && known ==> r is Ok && produced(r).len() == 0
            && post == VertexBook { partial_conflicts: post.partial_conflicts, ..pre }
            && post.partial_conflicts == (if pre.collecting@[(h, bp.voter)] != bp.sig {
                wrapping_inc(pre.partial_conflicts)
            } else {
                pre.partial_conflicts
            }))
        &&& (mine && !known && ctx.valset.spec_set_for(Epoch(0)) is None ==> r is Err)
        &&& (mine && !known && r is Ok ==> forall|i: int| #[trigger] own_at(pre.my_proposals@, h, i) ==> {
            let set = ctx.valset.spec_set_for(Epoch(0))->0;
            let valid = spec_partial_valid(set, bp, pre.my_proposals@[i].vertex);
            &&& post.rejected_crypto == (if valid { pre.rejected_crypto } else { wrapping_inc(pre.rejected_crypto) })
            &&& (!valid ==> produced(r).len() == 0 && post == VertexBook { rejected_crypto: post.rejected_crypto, ..pre })
            &&& (produced(r).len() == 0 && valid ==> post.collecting@ == pre.collecting@.insert((h, bp.voter), bp.sig)
                && post == VertexBook { collecting: post.collecting, ..pre })
            &&& (valid && !pre.emitted_certs@.contains(h)
                && voters_for(pre.collecting@.insert((h, bp.voter), bp.sig), h).len() >= quorum(set.entries@.len())
                ==> produced(r).len() > 0)
            &&& (produced(r).len() > 0 ==> post.rejected_crypto == pre.rejected_crypto
                && post.partial_conflicts == pre.partial_conflicts && post.rounds_stalled == pre.rounds_stalled)
            &&& (produced(r).len() > 0 ==> valid && (produced(r)[0] matches Action::BroadcastCertifiedVertex(cv)
                && cv.vertex.hash == h && cert_valid(cv, set)))
            &&& (produced(r).len() > 0 && pre.started ==> advance_outcome(pre.current_round,
                pre.certified@.insert((pre.my_proposals@[i].vertex.round, pre.my_proposals@[i].vertex.author), h),
                pre.certified.pairs().len(), post, set))
        })
    })
}

/// Proposer-side vote collection for this node's own proposals. Partials for
/// other authors, from this node itself, or for unknown vertices are ignored.
/// A voter's first signature is kept: a different second one only counts as
/// a conflict. A new partial is collected only when it verifies; the
/// certificate goes out once the collected partials reach the quorum.
pub fn on_vertex_partial(book: &mut VertexBook, cfg: &Config, bp: VertexPartial, ctx: &HostContext) -> (r: Result<Actions>)
    requires
        old(book).wf(),
        set_size_fits(ctx),
    ensures
        final(book).wf(),
        vertex_partial_handled(*old(book), *final(book), ctx, bp, r),
{
    if !bp.author.same(&book.self_id) || bp.voter.same(&book.self_id) {
        return Ok(Vec::new());
    }
    let Some(i) = find_own(&book.my_proposals, &bp.vertex_hash) else {
        return Ok(Vec::new());
    };
    if let Some(prev) = book.collecting.get(&(bp.vertex_hash, bp.voter)) {
        if !prev.same(&bp.sig) {
            book.partial_conflicts = book.partial_conflicts.wrapping_add(1);
        }
        return Ok(Vec::new());
    }
    let set = active_set(ctx)?;
    if !verify_partial(&set, &bp, &book.my_proposals[i].vertex) {
        book.rejected_crypto = book.rejected_crypto.wrapping_add(1);
        return Ok(Vec::new());
    }
    book.collecting.insert((bp.vertex_hash, bp.voter), bp.sig);
    let mut actions: Actions = Vec::new();
    try_finalize(book, cfg, ctx, bp.vertex_hash, &mut actions)?;
    Ok(actions)
}

/// What observing a certified vertex did (see `on_certified_vertex`).
pub open spec fn certified_vertex_handled(pre: VertexBook, post: VertexBook, before: Seq<Action>, after: Seq<Action>, ctx: &HostContext, cv: CertifiedVertex, r: Result<()>) -> bool {
    &&& (post.self_id == pre.self_id)
    &&& (post.started == pre.started)
    &&& (post.current_round.0 >= pre.current_round.0)
    &&& (after.len() >= before.len())
    &&& (after.subrange(0, before.len() as int) == before)
    &&& (!pre.started ==> after == before
        && post == (VertexBook { certified: post.certified, ..pre })
        && post.certified@ == pre.certified@.insert((cv.vertex.round, cv.vertex.author), cv.vertex.hash))
    &&& (!pre.started ==> r is Ok)
    &&& (pre.started && ctx.valset.spec_set_for(Epoch(0)) is None ==> r is Err)
    &&& (pre.started && (ctx.valset.spec_set_for(Epoch(0)) is None || ctx.valset.spec_set_for(Epoch(0))->0.entries@.len() == 0)
        ==> r is Err && after == before && post == (VertexBook { certified: post.certified, ..pre })
            && post.certified@ == pre.certified@.insert((cv.vertex.round, cv.vertex.author), cv.vertex.hash))
    &&& (pre.started && r is Ok && post.current_round.0 > pre.current_round.0 ==> proposes_round(after, before.len() as int,
        post.current_round, pre.self_id, ctx.valset.spec_set_for(Epoch(0))->0))
    &&& (pre.started && r is Ok ==> advance_outcome(pre.current_round,
        pre.certified@.insert((cv.vertex.round, cv.vertex.author), cv.vertex.hash),
        pre.certified.pairs().len(), post, ctx.valset.spec_set_for(Epoch(0))->0))
}

/// Observe a certified vertex (own loopback or peer) and try to advance.
pub fn on_certified_vertex(book: &mut VertexBook, cfg: &Config, cv: &CertifiedVertex, ctx: &HostContext, actions: &mut Actions) -> (r: Result<()>)
    requires
        old(book).wf(),
        set_size_fits(ctx),
    ensures
        final(book).wf(),
        certified_vertex_handled(*old(book), *final(book), old(actions)@, final(actions)@, ctx, *cv, r),
{
    record_cert(book, cv);
    maybe_advance(book, cfg, ctx, actions)
}

/// What a fired round timer did (see `on_timer_fired`).
pub open spec fn vertex_timer_handled(pre: VertexBook, post: VertexBook, before: Seq<Action>, after: Seq<Action>, cfg: Config, ctx: &HostContext, id: TimerId, r: Result<()>) -> bool {
    &&& ({
        &&& post == VertexBook {
            round_timer: post.round_timer,
            timer_retries: post.timer_retries,
            timers: post.timers,
            rounds_stalled: post.rounds_stalled,
            ..pre
        }
        &&& (pre.round_timer != Some(id) ==> r is Ok && post == pre && after == before)
        &&& (pre.round_timer == Some(id) ==> {
            let set = ctx.valset.spec_set_for(Epoch(0))->0;
            let stalled = authors_at(pre.certified@, pre.current_round).len() < quorum(set.entries@.len());
            let retries: u32 = if pre.timer_retries >= 8 { 8 } else { (pre.timer_retries + 1) as u32 };
            &&& (ctx.valset.spec_set_for(Epoch(0)) is None ==> r is Err)
            &&& (r is Ok && !stalled ==> post.round_timer is None && after == before
                && post.rounds_stalled == pre.rounds_stalled)
            &&& (r is Ok && stalled ==> {
                &&& post.rounds_stalled == wrapping_inc(pre.rounds_stalled)
                &&& post.timer_retries == retries
                &&& post.round_timer == Some(TimerId(pre.timers.spec_next()))
                &&& after.last() == (Action::ScheduleTimer {
                    id: TimerId(pre.timers.spec_next()),
                    delay_nanos: spec_round_delay(cfg, retries),
                })
                &&& (after.len() == before.len() + 1
                    || (after.len() == before.len() + 2
                        && (after[before.len() as int] matches Action::BroadcastVertexProposal(q)
                            && q.vertex.round == pre.current_round
                            && exists|i: int| 0 <= i < pre.my_proposals@.len() && q.same_as(&pre.my_proposals@[i])
                                && pre.my_proposals@[i].vertex.round == pre.current_round
                                && forall|j: int| 0 <= j < i ==> (#[trigger] pre.my_proposals@[j]).vertex.round != pre.current_round)))
                &&& (after.len() == before.len() + 2 <==> exists|i: int| 0 <= i < pre.my_proposals@.len()
                    && (#[trigger] pre.my_proposals@[i]).vertex.round == pre.current_round)
                &&& after.subrange(0, before.len() as int) == before
            })
            &&& (r is Err ==> after == before)
        })
    })
}

/// Round fallback for the armed round timer: unless the current round already
/// has a quorum of certificates, re-broadcast the own proposal of the current
/// round and re-arm with linear backoff (capped at eight retries). Never
/// changes the round. Other timer ids are ignored.
pub fn on_timer_fired(book: &mut VertexBook, cfg: &Config, ctx: &HostContext, id: TimerId, actions: &mut Actions) -> (r: Result<()>)
    requires
        old(book).wf(),
        set_size_fits(ctx),
    ensures
        final(book).wf(),
        vertex_timer_handled(*old(book), *final(book), old(actions)@, final(actions)@, *cfg, ctx, id, r),
        ctx.valset.spec_answers() && (ctx.valset.spec_set_for(Epoch(0)) matches Some(s) && s.entries@.len() > 0) ==> r is Ok,
{
    match book.round_timer {
        Some(t) => {
            if t.0 != id.0 {
                return Ok(());
            }
        },
        None => {
            return Ok(());
        },
    }
    book.round_timer = None;
    let set = active_set(ctx)?;
    let need = quorum_need(&set)?;
    if book.certified_count_at(book.current_round) >= need {
        return Ok(());
    }
    book.rounds_stalled = book.rounds_stalled.wrapping_add(1);
    let ghost start = actions@;
    let mut k: usize = 0;
    while k < book.my_proposals.len()
        invariant
            0 <= k <= book.my_proposals@.len(),
            forall|j: int| 0 <= j < k ==> (#[trigger] book.my_proposals@[j]).vertex.round != book.current_round,
        ensures
            k < book.my_proposals@.len() ==> book.my_proposals@[k as int].vertex.round == book.current_round,
        decreases book.my_proposals@.len() - k,
    {
        if book.my_proposals[k].vertex.round == book.current_round {
            break;
        }
        k = k + 1;
    }
    if k < book.my_proposals.len() {
        let q = book.my_proposals[k].duplicate();
        actions.push(Action::BroadcastVertexProposal(q));
    } else {
        assert forall|i: int| 0 <= i < book.my_proposals@.len() implies (#[trigger] book.my_proposals@[i]).vertex.round != book.current_round by {
        }
    }
    book.timer_retries = if book.timer_retries >= 8 { 8 } else { book.timer_retries + 1 };
    let tid = book.timers.allocate();
    book.round_timer = Some(tid);
    let ghost mid = actions@;
    actions.push(Action::ScheduleTimer { id: tid, delay_nanos: round_delay_nanos(cfg, book.timer_retries) });
    proof {
        assert(actions@.subrange(0, start.len() as int) =~= start);
        if mid.len() == start.len() + 1 {
            assert(actions@[start.len() as int] == mid[start.len() as int]);
        }
    }
    Ok(())
}

} // verus!
