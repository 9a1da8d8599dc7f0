//! Bullshark commit rule: an anchor commits when a quorum of distinct authors
//! in the rounds after it reach it through their parents, within the
//! shortcut window, or within the wider slow-path window after a timeout.
use vstd::prelude::*;
use crate::bullshark::wave::WaveId;
use crate::config::Config;
use crate::error::Result;
use crate::ports::DagView;
use crate::signers::{quorum, quorum_threshold};
use crate::table::KeySet;
use crate::types::crypto_types::Hash32;
use crate::types::dag::CertifiedVertex;
use crate::types::primitives::{Round, ValidatorId};
use crate::types::validator::ValidatorSet;

verus! {

/// Which commit path resolved the wave.
#[derive(Clone, Copy, Debug, PartialEq, Eq, Structural)]
pub enum CommitPath {
    /// Committed through the shortcut window.
    Shortcut,
    /// Committed through the slow-path window (after the timeout).
    SlowPath,
}

/// Result of running the commit rule for one wave.
#[derive(Clone, Copy, Debug, PartialEq, Eq)]
pub struct CommitDecision {
    /// Wave that produced the decision.
    pub wave: WaveId,
    /// Which path won.
    pub path: CommitPath,
    /// Hash of the committed anchor vertex.
    pub anchor_hash: Hash32,
}

/// Parents of `h` in the view (none for an unknown vertex).
pub open spec fn parents_in<D: DagView + ?Sized>(dag: &D, h: Hash32) -> Seq<Hash32> {
    match dag.spec_vertex(h) {
        Some(cv) => cv.vertex.parents@,
        None => Seq::empty(),
    }
}

/// The parent relation of the view, as a function.
pub open spec fn graph<D: DagView + ?Sized>(dag: &D) -> spec_fn(Hash32) -> Seq<Hash32> {
    |h: Hash32| parents_in(dag, h)
}

/// `b` is reached from `a` by following parents exactly `n` times.
pub open spec fn walk(g: spec_fn(Hash32) -> Seq<Hash32>, a: Hash32, b: Hash32, n: nat) -> bool
    decreases n,
{
    if n == 0 {
        a == b
    } else {
        exists|i: int| 0 <= i < g(a).len() && walk(g, #[trigger] g(a)[i], b, (n - 1) as nat)
    }
}

/// `b` is reached from `a` in the view by some number of parent steps.
pub open spec fn path<D: DagView + ?Sized>(dag: &D, a: Hash32, b: Hash32, n: nat) -> bool {
    walk(graph(dag), a, b, n)
}

/// `b` is `a` or an ancestor of `a` in the view.
pub open spec fn reaches<D: DagView + ?Sized>(dag: &D, a: Hash32, b: Hash32) -> bool {
    exists|n: nat| #[trigger] path(dag, a, b, n)
}

/// A vertex supports `target` when it is `target` or one of its parents reaches it.
pub open spec fn supports<D: DagView + ?Sized>(dag: &D, v: CertifiedVertex, target: Hash32) -> bool {
    v.vertex.hash == target || exists|i: int| 0 <= i < v.vertex.parents@.len() && reaches(dag, #[trigger] v.vertex.parents@[i], target)
}

/// A set closed under `g` that avoids `target` contains nothing reaching it.
proof fn lemma_closed_avoids(g: spec_fn(Hash32) -> Seq<Hash32>, visited: Set<Hash32>, target: Hash32, x: Hash32, n: nat)
    requires
        visited.contains(x),
        !visited.contains(target),
        forall|y: Hash32, i: int| #![trigger visited.contains(y), g(y)[i]]
            visited.contains(y) && 0 <= i < g(y).len() ==> visited.contains(g(y)[i]),
    ensures
        !walk(g, x, target, n),
    decreases n,
{
    if n > 0 {
        assert forall|i: int| 0 <= i < g(x).len() implies !walk(g, #[trigger] g(x)[i], target, (n - 1) as nat) by {
            assert(visited.contains(g(x)[i]));
            lemma_closed_avoids(g, visited, target, g(x)[i], (n - 1) as nat);
        }
    }
}

/// Extending a walk by one step at its end.
pub proof fn lemma_walk_extend(g: spec_fn(Hash32) -> Seq<Hash32>, a: Hash32, h: Hash32, p: Hash32, n: nat, i: int)
    requires
        walk(g, a, h, n),
        0 <= i < g(h).len(),
        g(h)[i] == p,
    ensures
        walk(g, a, p, n + 1),
    decreases n,
{
    if n == 0 {
        assert(walk(g, p, p, 0));
        assert(walk(g, h, p, 1));
    } else {
        let k = choose|k: int| 0 <= k < g(a).len() && walk(g, #[trigger] g(a)[k], h, (n - 1) as nat);
        lemma_walk_extend(g, g(a)[k], h, p, (n - 1) as nat, i);
        assert(walk(g, g(a)[k], p, n));
    }
}

/// Mark the unvisited hashes of `ps` visited and queue them.
fn enqueue_new(visited: &mut KeySet<Hash32>, queue: &mut Vec<Hash32>, ps: &Vec<Hash32>)
    requires
        old(visited).wf(),
    ensures
        final(visited).wf(),
        final(visited).elems().len() <= usize::MAX,
        forall|x: Hash32| #[trigger] final(visited)@.contains(x) <==> old(visited)@.contains(x) || ps@.contains(x),
        forall|x: Hash32| #[trigger] final(queue)@.contains(x) <==> old(queue)@.contains(x) || (ps@.contains(x) && !old(visited)@.contains(x)),
        final(visited).elems().len() >= old(visited).elems().len(),
        final(visited).elems().len() == old(visited).elems().len() ==> final(queue)@ == old(queue)@,
{
    let mut i: usize = 0;
    while i < ps.len()
        invariant
            0 <= i <= ps@.len(),
            visited.wf(),
            forall|x: Hash32| #[trigger] visited@.contains(x) <==> old(visited)@.contains(x) || ps@.subrange(0, i as int).contains(x),
            forall|x: Hash32| #[trigger] queue@.contains(x) <==> old(queue)@.contains(x)
                || (ps@.subrange(0, i as int).contains(x) && !old(visited)@.contains(x)),
            visited.elems().len() >= old(visited).elems().len(),
            visited.elems().len() == old(visited).elems().len() ==> queue@ == old(queue)@,
        decreases ps@.len() - i,
    {
        let p = ps[i];
        let ghost qb = queue@;
        let ghost vb = visited@;
        let ghost eb = visited.elems();
        assert(ps@.subrange(0, i + 1) =~= ps@.subrange(0, i as int).push(p));
        assert forall|x: Hash32| #[trigger] ps@.subrange(0, i + 1).contains(x) <==> ps@.subrange(0, i as int).contains(x) || x == p by {
            let lo = ps@.subrange(0, i as int);
            let hi = ps@.subrange(0, i + 1);
            if hi.contains(x) {
                let t = choose|t: int| 0 <= t < hi.len() && hi[t] == x;
                if t < lo.len() {
                    assert(lo[t] == x);
                }
            }
            if lo.contains(x) {
                let t = choose|t: int| 0 <= t < lo.len() && lo[t] == x;
                assert(hi[t] == x);
            }
            if x == p {
                assert(hi[i as int] == p);
            }
        }
        if visited.insert(p) {
            queue.push(p);
            assert(queue@ == qb.push(p));
            assert forall|x: Hash32| #[trigger] queue@.contains(x) <==> old(queue)@.contains(x)
                || (ps@.subrange(0, i + 1).contains(x) && !old(visited)@.contains(x)) by {
                if queue@.contains(x) && x != p {
                    let t = choose|t: int| 0 <= t < queue@.len() && queue@[t] == x;
                    assert(qb[t] == x);
                }
                if qb.contains(x) {
                    let t = choose|t: int| 0 <= t < qb.len() && qb[t] == x;
                    assert(queue@[t] == x);
                }
                if x == p {
                    assert(queue@[qb.len() as int] == p);
                }
            }
        } else {
            assert forall|x: Hash32| #[trigger] queue@.contains(x) <==> old(queue)@.contains(x)
                || (ps@.subrange(0, i + 1).contains(x) && !old(visited)@.contains(x)) by {
                if x == p && !old(visited)@.contains(x) {
                    assert(vb.contains(p));
                    assert(ps@.subrange(0, i as int).contains(p));
                }
            }
        }
        i = i + 1;
    }
    assert(ps@.subrange(0, ps@.len() as int) =~= ps@);
    proof {
        visited.lemma_len_bound();
    }
}

/// Does `start` reach `target` through its parent chain (or is it `target`)?
/// Breadth-first over the view, each vertex visited once.
#[verifier::rlimit(50)]
pub fn vertex_reaches<D: DagView + ?Sized>(start: &CertifiedVertex, target: &Hash32, dag: &D) -> (r: Result<bool>)
    ensures
        r matches Ok(b) ==> b == supports(dag, *start, *target),
        start.vertex.hash == *target ==> r == Ok::<bool, crate::error::Error>(true),
        start.vertex.hash != *target && start.vertex.parents@.len() == 0 ==> r == Ok::<bool, crate::error::Error>(false),
        dag.spec_answers() ==> r is Ok,
{
    if start.vertex.hash.same(target) {
        return Ok(true);
    }
    let mut visited: KeySet<Hash32> = KeySet::new();
    let mut queue: Vec<Hash32> = Vec::new();
    let mut k: usize = 0;
    while k < start.vertex.parents.len()
        invariant
            0 <= k <= start.vertex.parents@.len(),
            visited.wf(),
            start.vertex.parents@.len() == 0 ==> queue@.len() == 0,
            forall|h: Hash32| #[trigger] visited@.contains(h) ==> queue@.contains(h),
            forall|h: Hash32| queue@.contains(h) ==> #[trigger] visited@.contains(h),
            forall|j: int| 0 <= j < k ==> visited@.contains(#[trigger] start.vertex.parents@[j]),
            forall|h: Hash32| #[trigger] visited@.contains(h) ==> exists|j: int| 0 <= j < start.vertex.parents@.len()
                && reaches(dag, start.vertex.parents@[j], h),
        decreases start.vertex.parents@.len() - k,
    {
        let p = start.vertex.parents[k];
        assert(path(dag, p, p, 0)) by {
            reveal_with_fuel(walk, 2);
        }
        let ghost qb = queue@;
        if visited.insert(p) {
            queue.push(p);
            assert(queue@[qb.len() as int] == p);
            assert forall|h: Hash32| #[trigger] visited@.contains(h) implies queue@.contains(h) by {
                if h != p {
                    let t = choose|t: int| 0 <= t < qb.len() && qb[t] == h;
                    assert(queue@[t] == h);
                }
            }
            assert forall|h: Hash32| queue@.contains(h) implies #[trigger] visited@.contains(h) by {
                let t = choose|t: int| 0 <= t < queue@.len() && queue@[t] == h;
                if t < qb.len() {
                    assert(qb[t] == h);
                }
            }
        }
        k = k + 1;
    }
    let ghost mut processed: Set<Hash32> = Set::empty();
    proof {
        visited.lemma_len_bound();
    }
    while queue.len() > 0
        invariant
            visited.wf(),
            visited.elems().len() <= usize::MAX,
            start.vertex.hash != *target,
            start.vertex.parents@.len() == 0 ==> queue@.len() == 0,
            forall|h: Hash32| #[trigger] visited@.contains(h) ==> queue@.contains(h) || processed.contains(h),
            forall|h: Hash32| queue@.contains(h) ==> #[trigger] visited@.contains(h),
            forall|h: Hash32| #[trigger] processed.contains(h) ==> visited@.contains(h) && h != *target,
            forall|y: Hash32, i: int| #![trigger processed.contains(y), parents_in(dag, y)[i]]
                processed.contains(y) && 0 <= i < parents_in(dag, y).len() ==> visited@.contains(parents_in(dag, y)[i]),
            forall|j: int| 0 <= j < start.vertex.parents@.len() ==> visited@.contains(#[trigger] start.vertex.parents@[j]),
            forall|h: Hash32| #[trigger] visited@.contains(h) ==> exists|j: int| 0 <= j < start.vertex.parents@.len()
                && reaches(dag, start.vertex.parents@[j], h),
        decreases usize::MAX - visited.elems().len(), queue@.len(),
    {
        let ghost qb = queue@;
        let h = queue.remove(0);
        assert(qb[0] == h);
        assert(qb.contains(h));
        assert(visited@.contains(h));
        assert forall|x: Hash32| #[trigger] visited@.contains(x) implies queue@.contains(x) || processed.contains(x) || x == h by {
            if qb.contains(x) && x != h {
                let t = choose|t: int| 0 <= t < qb.len() && qb[t] == x;
                assert(t != 0);
                assert(queue@[t - 1] == x);
            }
        }
        assert forall|x: Hash32| queue@.contains(x) implies #[trigger] visited@.contains(x) by {
            let t = choose|t: int| 0 <= t < queue@.len() && queue@[t] == x;
            assert(qb[t + 1] == x);
        }
        if h.same(target) {
            proof {
                let j = choose|j: int| 0 <= j < start.vertex.parents@.len() && reaches(dag, start.vertex.parents@[j], h);
                assert(reaches(dag, start.vertex.parents@[j], *target));
            }
            return Ok(true);
        }
        let v = dag.vertex(&h)?;
        let ghost before = visited@;
        let ghost qbefore = queue@;
        let ps: Vec<Hash32> = match v {
            Some(cv) => cv.vertex.parents,
            None => Vec::new(),
        };
        assert(ps@ == parents_in(dag, h));
        enqueue_new(&mut visited, &mut queue, &ps);
        proof {
            assert forall|x: Hash32| #[trigger] visited@.contains(x) implies exists|j: int| 0 <= j < start.vertex.parents@.len()
                && reaches(dag, start.vertex.parents@[j], x) by {
                if !before.contains(x) {
                    let i = choose|i: int| 0 <= i < ps@.len() && ps@[i] == x;
                    let j = choose|j: int| 0 <= j < start.vertex.parents@.len() && reaches(dag, start.vertex.parents@[j], h);
                    let n = choose|n: nat| #[trigger] path(dag, start.vertex.parents@[j], h, n);
                    assert(graph(dag)(h) == parents_in(dag, h));
                    lemma_walk_extend(graph(dag), start.vertex.parents@[j], h, x, n, i);
                    assert(path(dag, start.vertex.parents@[j], x, n + 1));
                }
            }
            assert forall|i: int| 0 <= i < parents_in(dag, h).len() implies visited@.contains(#[trigger] parents_in(dag, h)[i]) by {
                assert(ps@.contains(ps@[i]));
            }
        }
        proof {
            processed = processed.insert(h);
        }
    }
    proof {
        let g = graph(dag);
        assert forall|y: Hash32, i: int| #![trigger processed.contains(y), g(y)[i]]
            processed.contains(y) && 0 <= i < g(y).len() implies processed.contains(g(y)[i]) by {
            assert(g(y) == parents_in(dag, y));
            assert(visited@.contains(parents_in(dag, y)[i]));
        }
        assert forall|j: int| 0 <= j < start.vertex.parents@.len() implies !reaches(dag, #[trigger] start.vertex.parents@[j], *target) by {
            assert(visited@.contains(start.vertex.parents@[j]));
            assert forall|n: nat| !#[trigger] path(dag, start.vertex.parents@[j], *target, n) by {
                lemma_closed_avoids(g, processed, *target, start.vertex.parents@[j], n);
            }
        }
    }
    Ok(false)
}

/// Authors of vertices in rounds `r0 + 1 ..= r0 + window` of the view that support `anchor`.
pub open spec fn supporters<D: DagView + ?Sized>(dag: &D, anchor: Hash32, r0: u64, window: u64) -> Set<ValidatorId> {
    Set::new(|a: ValidatorId| exists|off: int, k: int| {
        &&& 1 <= off <= window
        &&& 0 <= k < dag.spec_vertices_at_round(Round((r0 + off) as u64)).len()
        &&& (#[trigger] dag.spec_vertices_at_round(Round((r0 + off) as u64))[k]).vertex.author == a
        &&& supports(dag, dag.spec_vertices_at_round(Round((r0 + off) as u64))[k], anchor)
    })
}

/// Distinct authors of vertices in `(anchor_round, anchor_round + window]`
/// that reach the anchor through their parent chain.
pub fn count_supporters<D: DagView + ?Sized>(anchor_hash: &Hash32, anchor_round: Round, window_rounds: u64, dag: &D) -> (r: Result<KeySet<ValidatorId>>)
    requires
        anchor_round.0 + window_rounds <= u64::MAX,
    ensures
        r matches Ok(s) ==> s.wf() && s@ == supporters(dag, *anchor_hash, anchor_round.0, window_rounds),
        window_rounds == 0 ==> r is Ok,
        dag.spec_answers() ==> r is Ok,
{
    let mut s: KeySet<ValidatorId> = KeySet::new();
    let mut done: u64 = 0;
    while done < window_rounds
        invariant
            done <= window_rounds,
            anchor_round.0 + window_rounds <= u64::MAX,
            s.wf(),
            forall|a: ValidatorId| #[trigger] s@.contains(a) <==> exists|off: int, k: int| {
                &&& 1 <= off <= done
                &&& 0 <= k < dag.spec_vertices_at_round(Round((anchor_round.0 + off) as u64)).len()
                &&& (#[trigger] dag.spec_vertices_at_round(Round((anchor_round.0 + off) as u64))[k]).vertex.author == a
                &&& supports(dag, dag.spec_vertices_at_round(Round((anchor_round.0 + off) as u64))[k], *anchor_hash)
            },
        decreases window_rounds - done,
    {
        let offset = done + 1;
        let round = Round(anchor_round.0 + offset);
        let vs = dag.vertices_at_round(round)?;
        let ghost sb = s@;
        let mut k: usize = 0;
        while k < vs.len()
            invariant
                0 <= k <= vs@.len(),
                vs@ == dag.spec_vertices_at_round(round),
                s.wf(),
                window_rounds > 0,
                forall|a: ValidatorId| #[trigger] s@.contains(a) <==> sb.contains(a) || exists|t: int| {
                    &&& 0 <= t < k
                    &&& (#[trigger] vs@[t]).vertex.author == a
                    &&& supports(dag, vs@[t], *anchor_hash)
                },
            decreases vs@.len() - k,
        {
            let reach = vertex_reaches(&vs[k], anchor_hash, dag);
            let hit = match reach {
                Ok(b) => b,
                Err(e) => {
                    return Err(e);
                },
            };
            let ghost s_before = s@;
            if hit {
                s.insert(vs[k].vertex.author);
            }
            proof {
                assert forall|a: ValidatorId| #[trigger] s@.contains(a) <==> sb.contains(a) || exists|t: int| {
                    &&& 0 <= t < k + 1
                    &&& (#[trigger] vs@[t]).vertex.author == a
                    &&& supports(dag, vs@[t], *anchor_hash)
                } by {
                    if hit && a == vs@[k as int].vertex.author {
                        assert(vs@[k as int].vertex.author == a && supports(dag, vs@[k as int], *anchor_hash));
                    }
                    if s_before.contains(a) && !sb.contains(a) {
                        let t = choose|t: int| 0 <= t < k && (#[trigger] vs@[t]).vertex.author == a && supports(dag, vs@[t], *anchor_hash);
                        assert(0 <= t < k + 1 && vs@[t].vertex.author == a && supports(dag, vs@[t], *anchor_hash));
                    }
                    if exists|t: int| 0 <= t < k + 1 && (#[trigger] vs@[t]).vertex.author == a && supports(dag, vs@[t], *anchor_hash) {
                        let t = choose|t: int| 0 <= t < k + 1 && (#[trigger] vs@[t]).vertex.author == a && supports(dag, vs@[t], *anchor_hash);
                        if t < k {
                            assert(0 <= t < k && vs@[t].vertex.author == a && supports(dag, vs@[t], *anchor_hash));
                        }
                    }
                }
            }
            k = k + 1;
        }
        proof {
            assert forall|a: ValidatorId| #[trigger] s@.contains(a) <==> exists|off: int, kk: int| {
                &&& 1 <= off <= offset
                &&& 0 <= kk < dag.spec_vertices_at_round(Round((anchor_round.0 + off) as u64)).len()
                &&& (#[trigger] dag.spec_vertices_at_round(Round((anchor_round.0 + off) as u64))[kk]).vertex.author == a
                &&& supports(dag, dag.spec_vertices_at_round(Round((anchor_round.0 + off) as u64))[kk], *anchor_hash)
            } by {
                if s@.contains(a) && !sb.contains(a) {
                    let t = choose|t: int| 0 <= t < vs@.len() && (#[trigger] vs@[t]).vertex.author == a && supports(dag, vs@[t], *anchor_hash);
                    assert(dag.spec_vertices_at_round(Round((anchor_round.0 + offset) as u64))[t] == vs@[t]);
                }
                if exists|off: int, kk: int| {
                    &&& 1 <= off <= offset
                    &&& 0 <= kk < dag.spec_vertices_at_round(Round((anchor_round.0 + off) as u64)).len()
                    &&& (#[trigger] dag.spec_vertices_at_round(Round((anchor_round.0 + off) as u64))[kk]).vertex.author == a
                    &&& supports(dag, dag.spec_vertices_at_round(Round((anchor_round.0 + off) as u64))[kk], *anchor_hash)
                } {
                    let (off, kk) = choose|off: int, kk: int| {
                        &&& 1 <= off <= offset
                        &&& 0 <= kk < dag.spec_vertices_at_round(Round((anchor_round.0 + off) as u64)).len()
                        &&& (#[trigger] dag.spec_vertices_at_round(Round((anchor_round.0 + off) as u64))[kk]).vertex.author == a
                        &&& supports(dag, dag.spec_vertices_at_round(Round((anchor_round.0 + off) as u64))[kk], *anchor_hash)
                    };
                    if off == offset {
                        assert(vs@[kk] == dag.spec_vertices_at_round(Round((anchor_round.0 + off) as u64))[kk]);
                    }
                }
            }
        }
        done = offset;
    }
    assert(s@ =~= supporters(dag, *anchor_hash, anchor_round.0, window_rounds));
    Ok(s)
}

/// The first vertex in `vs` authored by `author`.
pub open spec fn first_by(vs: Seq<CertifiedVertex>, author: ValidatorId, i: int) -> bool {
    0 <= i < vs.len() && vs[i].vertex.author == author && forall|j: int| 0 <= j < i ==> vs[j].vertex.author != author
}

/// Run the commit rule for `wave` with its anchor author already chosen: the
/// anchor vertex is the first vertex of that author in the wave's first round;
/// it commits on the shortcut path when a quorum of the set supports it within
/// the shortcut window, else, after the timeout, on the slow path within the
/// wider window.
#[verifier::spinoff_prover]
pub fn try_commit_wave<D: DagView + ?Sized>(
    wave: WaveId,
    cfg: &Config,
    set: &ValidatorSet,
    anchor_author: ValidatorId,
    dag: &D,
    timed_out: bool,
) -> (r: Result<Option<CommitDecision>>)
    requires
        wave.0 * 4 + cfg.bullshark.shortcut_round_count <= u64::MAX,
        wave.0 * 4 + cfg.bullshark.slow_path_round_count <= u64::MAX,
    ensures
        set.entries@.len() == 0 ==> r == Ok::<Option<CommitDecision>, crate::error::Error>(None),
        r matches Ok(Some(d)) ==> ({
            let r0 = (wave.0 * 4) as u64;
            let vs = dag.spec_vertices_at_round(Round(r0));
            let need = quorum(set.entries@.len());
            &&& set.entries@.len() > 0
            &&& d.wave == wave
            &&& exists|i: int| #[trigger] first_by(vs, anchor_author, i) && vs[i].vertex.hash == d.anchor_hash
            &&& (d.path == CommitPath::Shortcut ==> supporters(dag, d.anchor_hash, r0, cfg.bullshark.shortcut_round_count as u64).len() >= need)
            &&& (d.path == CommitPath::SlowPath ==> timed_out
                && supporters(dag, d.anchor_hash, r0, cfg.bullshark.shortcut_round_count as u64).len() < need
                && supporters(dag, d.anchor_hash, r0, cfg.bullshark.slow_path_round_count as u64).len() >= need)
        }),
        r matches Ok(None) ==> ({
            let r0 = (wave.0 * 4) as u64;
            let vs = dag.spec_vertices_at_round(Round(r0));
            let need = quorum(set.entries@.len());
            set.entries@.len() > 0 ==> (forall|i: int| 0 <= i < vs.len() ==> vs[i].vertex.author != anchor_author)
                || exists|i: int| #[trigger] first_by(vs, anchor_author, i) && {
                    let h = vs[i].vertex.hash;
                    &&& supporters(dag, h, r0, cfg.bullshark.shortcut_round_count as u64).len() < need
                    &&& (timed_out ==> supporters(dag, h, r0, cfg.bullshark.slow_path_round_count as u64).len() < need)
                }
        }),
        dag.spec_answers() ==> r is Ok,
{
    if set.entries.len() == 0 {
        return Ok(None);
    }
    let anchor_round = wave.first_round();
    assert(anchor_round == Round((wave.0 * 4) as u64));
    let vs = dag.vertices_at_round(anchor_round)?;
    let mut i: usize = 0;
    while i < vs.len()
        invariant
            0 <= i <= vs@.len(),
            forall|j: int| 0 <= j < i ==> vs@[j].vertex.author != anchor_author,
        ensures
            i < vs@.len() ==> vs@[i as int].vertex.author == anchor_author,
            forall|j: int| 0 <= j < i ==> vs@[j].vertex.author != anchor_author,
        decreases vs@.len() - i,
    {
        if vs[i].vertex.author.same(&anchor_author) {
            break;
        }
        i = i + 1;
    }
    if i == vs.len() {
        return Ok(None);
    }
    assert(first_by(vs@, anchor_author, i as int));
    let anchor_hash = vs[i].vertex.hash;
    assert(exists|j: int| #[trigger] first_by(vs@, anchor_author, j) && vs@[j].vertex.hash == anchor_hash);
    let need = quorum_threshold(set.entries.len());
    let shortcut = count_supporters(&anchor_hash, anchor_round, cfg.bullshark.shortcut_round_count as u64, dag)?;
    proof {
        shortcut.lemma_len();
    }
    if shortcut.len() >= need {
        let d = CommitDecision { wave, path: CommitPath::Shortcut, anchor_hash };
        assert(supporters(dag, d.anchor_hash, (wave.0 * 4) as u64, cfg.bullshark.shortcut_round_count as u64).len() >= quorum(set.entries@.len()));
        assert(exists|j: int| #[trigger] first_by(dag.spec_vertices_at_round(Round((wave.0 * 4) as u64)), anchor_author, j)
            && dag.spec_vertices_at_round(Round((wave.0 * 4) as u64))[j].vertex.hash == d.anchor_hash);
        return Ok(Some(d));
    }
    if timed_out {
        let slow = count_supporters(&anchor_hash, anchor_round, cfg.bullshark.slow_path_round_count as u64, dag)?;
        proof {
            slow.lemma_len();
        }
        if slow.len() >= need {
            return Ok(Some(CommitDecision { wave, path: CommitPath::SlowPath, anchor_hash }));
        }
    }
    Ok(None)
}

} // verus!
