//! Relaxed L2 commit path: a wave commits once each of its four rounds holds
//! a vertex and its authors reach the quorum; the batch is ordered by
//! `(round, author)`.
pub mod book;

pub use crate::l2_minimal::book::{Book, WaveStatus};

use vstd::prelude::*;
use crate::action::{produced, Action, Actions};
use crate::bitmap::{build_bitmap, encode_bits};
use crate::bullshark::linearize::spec_checkpoint_hash;
use crate::bullshark::micro_qc::{authors_of, micro_sig};
use crate::bytes::{lemma_lex_lt_trans, lex_lt};
use crate::error::{Error, Result};
use crate::host_context::HostContext;
use crate::macro_fin::support::active_set;
use crate::ports::DagView;
use crate::signers::{member_bits, quorum, quorum_threshold, signer_bits};
use crate::table::KeySet;
use crate::types::crypto_types::{BlsAggSig, BlsSig, Hash32};
use crate::types::dag::CertifiedVertex;
use crate::types::micro::MicroQc;
use crate::types::primitives::{Epoch, Round, ValidatorId};
use crate::types::validator::ValidatorSet;

verus! {

/// Checkpoint hash over a linearized batch (the vertex hashes only).
pub fn checkpoint_hash_from_rounds(vertices: &Vec<CertifiedVertex>) -> (r: Hash32)
    requires
        vertices@.len() <= u32::MAX,
    ensures
        r.0@ == spec_checkpoint_hash(hashes_of(vertices@)),
{
    let r = crate::bullshark::linearize::checkpoint_hash_from_rounds(vertices);
    assert(vertices@.map_values(|cv: CertifiedVertex| cv.vertex.hash) =~= hashes_of(vertices@));
    r
}

/// The vertices of rounds `4w ..= 4w + 3`, round by round in the view's order.
pub open spec fn wave_vertices<D: DagView + ?Sized>(dag: &D, w: u64) -> Seq<CertifiedVertex> {
    dag.spec_vertices_at_round(Round((4 * w) as u64)) + dag.spec_vertices_at_round(Round((4 * w + 1) as u64))
        + dag.spec_vertices_at_round(Round((4 * w + 2) as u64)) + dag.spec_vertices_at_round(Round((4 * w + 3) as u64))
}

/// Every round of wave `w` holds a vertex.
pub open spec fn wave_full<D: DagView + ?Sized>(dag: &D, w: u64) -> bool {
    forall|k: int| 0 <= k < 4 ==> #[trigger] dag.spec_vertices_at_round(Round((4 * w + k) as u64)).len() > 0
}

/// Wave `w` is ready when its anchor round `4w + 3` and every round of it holds a vertex.
pub fn wave_ready_to_commit<D: DagView + ?Sized>(w: u64, dag: &D) -> (r: Result<bool>)
    requires
        4 * w + 3 <= u64::MAX,
    ensures
        r matches Ok(b) ==> b == wave_full(dag, w),
        dag.spec_answers() ==> r is Ok,
{
    let anchor = Round(4 * w + 3);
    let at_anchor = dag.vertices_at_round(anchor)?;
    if at_anchor.len() == 0 {
        assert(dag.spec_vertices_at_round(Round((4 * w + 3) as u64)).len() == 0);
        return Ok(false);
    }
    let mut k: u64 = 0;
    while k < 4
        invariant
            0 <= k <= 4,
            4 * w + 3 <= u64::MAX,
            forall|j: int| 0 <= j < k ==> #[trigger] dag.spec_vertices_at_round(Round((4 * w + j) as u64)).len() > 0,
        decreases 4 - k,
    {
        let vs = dag.vertices_at_round(Round(4 * w + k))?;
        if vs.len() == 0 {
            assert(dag.spec_vertices_at_round(Round((4 * w + k) as u64)).len() == 0);
            return Ok(false);
        }
        k = k + 1;
    }
    Ok(true)
}

/// Order key: by round, then by author bytes.
pub open spec fn key_lt(a: CertifiedVertex, b: CertifiedVertex) -> bool {
    a.vertex.round.0 < b.vertex.round.0
        || (a.vertex.round.0 == b.vertex.round.0 && lex_lt(a.vertex.author.0@, b.vertex.author.0@))
}

/// Non-decreasing by `(round, author)`.
pub open spec fn sorted_by_key(s: Seq<CertifiedVertex>) -> bool {
    forall|i: int, j: int| 0 <= i < j < s.len() ==> !key_lt(#[trigger] s[j], #[trigger] s[i])
}

proof fn lemma_key_lt_trans(a: CertifiedVertex, b: CertifiedVertex, c: CertifiedVertex)
    requires
        key_lt(a, b),
        key_lt(b, c),
    ensures
        key_lt(a, c),
{
    if a.vertex.round.0 == b.vertex.round.0 && b.vertex.round.0 == c.vertex.round.0 {
        lemma_lex_lt_trans(a.vertex.author.0@, b.vertex.author.0@, c.vertex.author.0@);
    }
}

/// Sort `v` by `(round, author)`, keeping the elements.
fn sort_by_key(v: Vec<CertifiedVertex>) -> (r: Vec<CertifiedVertex>)
    ensures
        sorted_by_key(r@),
        r@.len() == v@.len(),
        forall|x: CertifiedVertex| #[trigger] r@.contains(x) <==> v@.contains(x),
{
    let ghost src = v@;
    let mut rest = v;
    let mut r: Vec<CertifiedVertex> = Vec::new();
    let mut i: usize = 0;
    assert(src.len() == rest.len());
    while rest.len() > 0
        invariant
            src.len() <= usize::MAX,
            i + rest@.len() == src.len(),
            rest@ == src.subrange(i as int, src.len() as int),
            r@.len() == i,
            sorted_by_key(r@),
            forall|x: CertifiedVertex| #[trigger] r@.contains(x) <==> src.subrange(0, i as int).contains(x),
        decreases rest@.len(),
    {
        let x = rest.remove(0);
        assert(x == src[i as int]);
        let mut p: usize = 0;
        while p < r.len()
            invariant
                0 <= p <= r@.len(),
                forall|k: int| 0 <= k < p ==> !key_lt(x, #[trigger] r@[k]),
            ensures
                p < r@.len() ==> key_lt(x, r@[p as int]),
                forall|k: int| 0 <= k < p ==> !key_lt(x, #[trigger] r@[k]),
            decreases r@.len() - p,
        {
            let before = x.vertex.round.0 < r[p].vertex.round.0
                || (x.vertex.round.0 == r[p].vertex.round.0 && x.vertex.author.less(&r[p].vertex.author));
            if before {
                break;
            }
            p = p + 1;
        }
        let ghost pre = r@;
        r.insert(p, x);
        proof {
            assert forall|a: int, b: int| 0 <= a < b < r@.len() implies !key_lt(#[trigger] r@[b], #[trigger] r@[a]) by {
                if b < p {
                    assert(r@[a] == pre[a] && r@[b] == pre[b]);
                } else if a > p {
                    assert(r@[a] == pre[a - 1] && r@[b] == pre[b - 1]);
                } else if a == p {
                    assert(r@[b] == pre[b - 1]);
                    if key_lt(pre[b - 1], x) {
                        if b - 1 > p {
                            assert(!key_lt(pre[b - 1], pre[p as int]));
                        }
                        lemma_key_lt_trans(pre[b - 1], x, pre[p as int]);
                    }
                } else if b == p {
                    assert(r@[a] == pre[a]);
                } else {
                    assert(r@[a] == pre[a] && r@[b] == pre[b - 1]);
                }
            }
            assert forall|y: CertifiedVertex| #[trigger] r@.contains(y) <==> src.subrange(0, i + 1).contains(y) by {
                let lo = src.subrange(0, i as int);
                let hi = src.subrange(0, i + 1);
                if r@.contains(y) {
                    let t = choose|t: int| 0 <= t < r@.len() && r@[t] == y;
                    if t < p {
                        assert(pre[t] == y);
                    } else if t > p {
                        assert(pre[t - 1] == y);
                    }
                    if t != p {
                        assert(pre.contains(y));
                        let u = choose|u: int| 0 <= u < lo.len() && lo[u] == y;
                        assert(hi[u] == y);
                    } else {
                        assert(hi[i as int] == x);
                    }
                }
                if hi.contains(y) {
                    let u = choose|u: int| 0 <= u < hi.len() && hi[u] == y;
                    if u < i {
                        assert(lo[u] == y);
                        assert(pre.contains(y));
                        let t = choose|t: int| 0 <= t < pre.len() && pre[t] == y;
                        if t < p {
                            assert(r@[t] == y);
                        } else {
                            assert(r@[t + 1] == y);
                        }
                    } else {
                        assert(r@[p as int] == x);
                    }
                }
            }
        }
        i = i + 1;
        assert(rest@ =~= src.subrange(i as int, src.len() as int));
    }
    assert(src.subrange(0, src.len() as int) =~= src);
    r
}

/// The vertices of wave `w`, ordered by `(round, author)`.
pub fn linearize_wave_sorted<D: DagView + ?Sized>(w: u64, dag: &D) -> (r: Result<Vec<CertifiedVertex>>)
    requires
        4 * w + 3 <= u64::MAX,
    ensures
        r matches Ok(v) ==> sorted_by_key(v@) && v@.len() == wave_vertices(dag, w).len()
            && forall|x: CertifiedVertex| #[trigger] v@.contains(x) <==> wave_vertices(dag, w).contains(x),
        dag.spec_answers() ==> r is Ok,
{
    let mut out: Vec<CertifiedVertex> = Vec::new();
    let mut k: u64 = 0;
    while k < 4
        invariant
            0 <= k <= 4,
            4 * w + 3 <= u64::MAX,
            out@ == (if k == 0 { Seq::empty() } else if k == 1 { dag.spec_vertices_at_round(Round((4 * w) as u64)) }
                else if k == 2 { dag.spec_vertices_at_round(Round((4 * w) as u64)) + dag.spec_vertices_at_round(Round((4 * w + 1) as u64)) }
                else if k == 3 { dag.spec_vertices_at_round(Round((4 * w) as u64)) + dag.spec_vertices_at_round(Round((4 * w + 1) as u64))
                    + dag.spec_vertices_at_round(Round((4 * w + 2) as u64)) }
                else { wave_vertices(dag, w) }),
        decreases 4 - k,
    {
        let mut vs = dag.vertices_at_round(Round(4 * w + k))?;
        let ghost pre = out@;
        out.append(&mut vs);
        k = k + 1;
        assert(out@ =~= (if k == 0 { Seq::empty() } else if k == 1 { dag.spec_vertices_at_round(Round((4 * w) as u64)) }
                else if k == 2 { dag.spec_vertices_at_round(Round((4 * w) as u64)) + dag.spec_vertices_at_round(Round((4 * w + 1) as u64)) }
                else if k == 3 { dag.spec_vertices_at_round(Round((4 * w) as u64)) + dag.spec_vertices_at_round(Round((4 * w + 1) as u64))
                    + dag.spec_vertices_at_round(Round((4 * w + 2) as u64)) }
                else { wave_vertices(dag, w) }));
    }
    Ok(sort_by_key(out))
}

/// Distinct authors of wave `w`.
pub fn validators_in_wave<D: DagView + ?Sized>(w: u64, dag: &D) -> (r: Result<KeySet<ValidatorId>>)
    requires
        4 * w + 3 <= u64::MAX,
    ensures
        r matches Ok(s) ==> s.wf() && s@ == authors_of(wave_vertices(dag, w)),
        dag.spec_answers() ==> r is Ok,
{
    let lin = linearize_wave_sorted(w, dag)?;
    let mut s: KeySet<ValidatorId> = KeySet::new();
    let mut i: usize = 0;
    while i < lin.len()
        invariant
            0 <= i <= lin@.len(),
            s.wf(),
            forall|a: ValidatorId| #[trigger] s@.contains(a) <==> exists|j: int| 0 <= j < i && (#[trigger] lin@[j]).vertex.author == a,
        decreases lin@.len() - i,
    {
        s.insert(lin[i].vertex.author);
        proof {
            assert forall|a: ValidatorId| #[trigger] s@.contains(a) <==> exists|j: int| 0 <= j < i + 1 && (#[trigger] lin@[j]).vertex.author == a by {
                if a == lin@[i as int].vertex.author {
                    assert(lin@[i as int].vertex.author == a);
                }
                if exists|j: int| 0 <= j < i + 1 && (#[trigger] lin@[j]).vertex.author == a {
                    let j = choose|j: int| 0 <= j < i + 1 && (#[trigger] lin@[j]).vertex.author == a;
                    if j < i {
                        assert(lin@[j].vertex.author == a);
                    }
                }
            }
        }
        i = i + 1;
    }
    proof {
        let wv = wave_vertices(dag, w);
        assert forall|a: ValidatorId| s@.contains(a) <==> #[trigger] authors_of(wv).contains(a) by {
            if s@.contains(a) {
                let j = choose|j: int| 0 <= j < lin@.len() && (#[trigger] lin@[j]).vertex.author == a;
                assert(lin@.contains(lin@[j]));
                assert(wv.contains(lin@[j]));
                let t = choose|t: int| 0 <= t < wv.len() && wv[t] == lin@[j];
                assert(wv[t].vertex.author == a);
            }
            if authors_of(wv).contains(a) {
                let t = choose|t: int| 0 <= t < wv.len() && (#[trigger] wv[t]).vertex.author == a;
                assert(wv.contains(wv[t]));
                assert(lin@.contains(wv[t]));
                let j = choose|j: int| 0 <= j < lin@.len() && lin@[j] == wv[t];
                assert(lin@[j].vertex.author == a);
            }
        }
        assert(s@ =~= authors_of(wv));
    }
    Ok(s)
}

/// The wave's distinct authors reach `2f + 1` of `validator_count`.
pub fn stake_threshold_met(w: u64, ctx: &HostContext, validator_count: u32) -> (r: Result<bool>)
    requires
        4 * w + 3 <= u64::MAX,
        validator_count >= 1,
    ensures
        r matches Ok(b) ==> authors_of(wave_vertices(ctx.dag, w)).finite()
            && b == (authors_of(wave_vertices(ctx.dag, w)).len() >= quorum(validator_count as nat)),
        ctx.dag.spec_answers() ==> r is Ok,
{
    let f = (validator_count - 1) / 3;
    let need = 2 * (f as usize) + 1;
    let authors = validators_in_wave(w, ctx.dag)?;
    proof {
        authors.lemma_len();
    }
    Ok(authors.len() >= need)
}

/// Flat MicroQc over the wave's authors: the bitmap marks the set entries that
/// authored a vertex of the wave; the signature is the placeholder.
pub fn build_flat_micro_qc(w: u64, checkpoint_hash: Hash32, ctx: &HostContext) -> (r: Result<MicroQc>)
    requires
        4 * w + 3 <= u64::MAX,
    ensures
        ctx.valset.spec_set_for(Epoch(0)) is None ==> r is Err,
        r matches Ok(qc) ==> ctx.valset.spec_set_for(Epoch(0)) is Some && qc.checkpoint_hash == checkpoint_hash
            && qc.agg.sig.0@ == micro_sig()
            && qc.agg.bitmap@ == encode_bits(member_bits(ctx.valset.spec_set_for(Epoch(0))->0.ids(), authors_of(wave_vertices(ctx.dag, w)))),
        ctx.dag.spec_answers() && ctx.valset.spec_answers() && ctx.valset.spec_set_for(Epoch(0)) is Some ==> r is Ok,
{
    let set = active_set(ctx)?;
    let authors = validators_in_wave(w, ctx.dag)?;
    let bits = signer_bits(&set, &authors);
    let bitmap = build_bitmap(&bits);
    let sig = BlsSig([0xABu8; 96]);
    assert(sig.0@ =~= micro_sig());
    Ok(MicroQc { checkpoint_hash, agg: BlsAggSig { sig, bitmap } })
}

/// Number of validators in the set of epoch 0.
pub fn validator_count(ctx: &HostContext) -> (r: Result<u32>)
    ensures
        ctx.valset.spec_set_for(Epoch(0)) is None ==> r is Err,
        r matches Ok(n) ==> ctx.valset.spec_set_for(Epoch(0)) matches Some(s) && n == s.entries@.len(),
        ctx.valset.spec_set_for(Epoch(0)) matches Some(s) && s.entries@.len() > u32::MAX ==> r is Err,
        ctx.valset.spec_answers() && (ctx.valset.spec_set_for(Epoch(0)) matches Some(s)
            && s.entries@.len() <= u32::MAX) ==> r is Ok,
{
    let set = active_set(ctx)?;
    if set.entries.len() > 0xffff_ffffusize {
        return Err(Error::InvalidConfig("validator count overflow".to_owned()));
    }
    Ok(set.entries.len() as u32)
}

/// The set of epoch 0, if any, is not empty, and each wave holds at most
/// `u32::MAX` vertices.
pub open spec fn l2_inputs_ok(ctx: &HostContext) -> bool {
    &&& (ctx.valset.spec_set_for(Epoch(0)) matches Some(s) ==> s.entries@.len() > 0)
    &&& forall|w: u64| 4 * w + 3 <= u64::MAX ==> (#[trigger] wave_vertices(ctx.dag, w)).len() <= u32::MAX
}

/// `lin` holds the vertices of `wv`, ordered by `(round, author)`.
pub open spec fn arranges(lin: Seq<CertifiedVertex>, wv: Seq<CertifiedVertex>) -> bool {
    &&& sorted_by_key(lin)
    &&& lin.len() == wv.len()
    &&& forall|x: CertifiedVertex| #[trigger] lin.contains(x) <==> wv.contains(x)
}

/// Hashes of the vertices, in order.
pub open spec fn hashes_of(vs: Seq<CertifiedVertex>) -> Seq<Hash32> {
    vs.map_values(|v: CertifiedVertex| v.vertex.hash)
}

/// Handle a certified vertex on the relaxed path: record it; when its wave is
/// full, its ordered batch has no MicroQc yet and its authors reach the
/// quorum, broadcast the wave's MicroQc and mark the wave committed.
pub fn on_certified_vertex(book: &mut Book, cv: CertifiedVertex, ctx: &HostContext) -> (r: Result<Actions>)
    requires
        old(book).wf(),
        l2_inputs_ok(ctx),
    ensures
        final(book).wf(),
        final(book).seen@ == old(book).seen@.insert(cv.vertex.hash, (cv.vertex.round, cv.vertex.author)),
        ({
            let w = (cv.vertex.round.0 / 4) as u64;
            let wv = wave_vertices(ctx.dag, w);
            &&& produced(r).len() <= 1
            &&& (produced(r).len() == 1 ==> {
                &&& wave_full(ctx.dag, w)
                &&& ctx.valset.spec_set_for(Epoch(0)) is Some
                &&& authors_of(wv).len() >= quorum(ctx.valset.spec_set_for(Epoch(0))->0.entries@.len())
                &&& (produced(r)[0] matches Action::BroadcastMicroQc(qc) && {
                    &&& exists|lin: Seq<CertifiedVertex>| arranges(lin, wv) && qc.checkpoint_hash.0@ == #[trigger] spec_checkpoint_hash(hashes_of(lin))
                    &&& !old(book).emitted_micro_qc@.contains(qc.checkpoint_hash)
                    &&& final(book).emitted_micro_qc@ == old(book).emitted_micro_qc@.insert(qc.checkpoint_hash)
                    &&& qc.agg.sig.0@ == micro_sig()
                    &&& qc.agg.bitmap@ == encode_bits(member_bits(ctx.valset.spec_set_for(Epoch(0))->0.ids(), authors_of(wv)))
                })
                &&& final(book).wave_status@ == old(book).wave_status@.insert(w, WaveStatus::Committed)
            })
            &&& (produced(r).len() == 0 ==> final(book).emitted_micro_qc == old(book).emitted_micro_qc
                && final(book).wave_status == old(book).wave_status)
            &&& (r is Ok && produced(r).len() == 0 && wave_full(ctx.dag, w) ==> {
                ||| (ctx.valset.spec_set_for(Epoch(0)) matches Some(s)
                    && authors_of(wv).len() < quorum(s.entries@.len()))
                ||| exists|lin: Seq<CertifiedVertex>, h: Hash32| #![trigger arranges(lin, wv), old(book).emitted_micro_qc@.contains(h)]
                    arranges(lin, wv) && h.0@ == spec_checkpoint_hash(hashes_of(lin)) && old(book).emitted_micro_qc@.contains(h)
            })
            &&& (ctx.dag.spec_answers() && !wave_full(ctx.dag, w) ==> r is Ok && produced(r).len() == 0)
            &&& (ctx.dag.spec_answers() && ctx.valset.spec_answers()
                && (ctx.valset.spec_set_for(Epoch(0)) matches Some(s) && s.entries@.len() <= u32::MAX) ==> r is Ok)
        }),
{
    book.seen.insert(cv.vertex.hash, (cv.vertex.round, cv.vertex.author));
    let w = cv.vertex.round.0 / 4;
    if !wave_ready_to_commit(w, ctx.dag)? {
        return Ok(Vec::new());
    }
    let linearized = linearize_wave_sorted(w, ctx.dag)?;
    let checkpoint_hash = checkpoint_hash_from_rounds(&linearized);
    let ghost wv = wave_vertices(ctx.dag, w);
    assert(arranges(linearized@, wv));
    if book.emitted_micro_qc.contains(&checkpoint_hash) {
        assert(exists|lin: Seq<CertifiedVertex>, h: Hash32| #![trigger arranges(lin, wv), old(book).emitted_micro_qc@.contains(h)]
            arranges(lin, wv) && h.0@ == spec_checkpoint_hash(hashes_of(lin)) && old(book).emitted_micro_qc@.contains(h)) by {
            assert(arranges(linearized@, wv) && checkpoint_hash.0@ == spec_checkpoint_hash(hashes_of(linearized@))
                && old(book).emitted_micro_qc@.contains(checkpoint_hash));
        }
        return Ok(Vec::new());
    }
    let n = validator_count(ctx)?;
    if !stake_threshold_met(w, ctx, n)? {
        return Ok(Vec::new());
    }
    let qc = build_flat_micro_qc(w, checkpoint_hash, ctx)?;
    book.emitted_micro_qc.insert(checkpoint_hash);
    book.wave_status.insert(w, WaveStatus::Committed);
    let mut actions: Actions = Vec::new();
    assert(exists|lin: Seq<CertifiedVertex>| arranges(lin, wv) && qc.checkpoint_hash.0@ == #[trigger] spec_checkpoint_hash(hashes_of(lin))) by {
        assert(arranges(linearized@, wv) && qc.checkpoint_hash.0@ == spec_checkpoint_hash(hashes_of(linearized@)));
    }
    actions.push(Action::BroadcastMicroQc(qc));
    Ok(actions)
}

/// Merge a peer MicroQc: remember its checkpoint, broadcast nothing.
pub fn on_micro_qc_assembled(book: &mut Book, qc: MicroQc) -> (r: Result<Actions>)
    requires
        old(book).wf(),
    ensures
        final(book).wf(),
        final(book).emitted_micro_qc@ == old(book).emitted_micro_qc@.insert(qc.checkpoint_hash),
        final(book).seen == old(book).seen,
        final(book).wave_status == old(book).wave_status,
        r is Ok && produced(r).len() == 0,
{
    if book.emitted_micro_qc.contains(&qc.checkpoint_hash) {
        assert(book.emitted_micro_qc@ =~= old(book).emitted_micro_qc@.insert(qc.checkpoint_hash));
        return Ok(Vec::new());
    }
    book.emitted_micro_qc.insert(qc.checkpoint_hash);
    Ok(Vec::new())
}

} // verus!
