//! Closure of a committed anchor, breadth first with hash tie-break, and the
//! micro checkpoint hash over an ordered list of vertex hashes.
use vstd::prelude::*;
use crate::bullshark::commit::{graph, parents_in, path, reaches, walk};
use crate::bytes::{lemma_lex_lt_trans, lex_lt};
use crate::codec::{encode_hash_list, hash_list_bytes};
use crate::crypto::{blake3_with_dst, digest_with_dst, Dst};
use crate::error::Result;
use crate::ports::DagView;
use crate::table::KeySet;
use crate::types::crypto_types::Hash32;
use crate::types::dag::CertifiedVertex;

verus! {

/// Output of linearization: ordered hashes of committed vertices.
#[derive(Debug, PartialEq, Eq)]
pub struct Linearization {
    /// Linearized vertex hashes in commit order.
    pub order: Vec<Hash32>,
}

impl Default for Linearization {
    fn default() -> (r: Self)
        ensures
            r.order@.len() == 0,
    {
        Linearization { order: Vec::new() }
    }
}

/// Ascending byte order (ties allowed).
pub open spec fn ascending(s: Seq<Hash32>) -> bool {
    forall|i: int, j: int| 0 <= i < j < s.len() ==> !lex_lt((#[trigger] s[j]).0@, (#[trigger] s[i]).0@)
}

/// The hashes of `v` in ascending byte order.
pub fn sort_hashes(v: &Vec<Hash32>) -> (r: Vec<Hash32>)
    ensures
        ascending(r@),
        r@.len() == v@.len(),
        forall|x: Hash32| #[trigger] r@.contains(x) <==> v@.contains(x),
{
    let mut r: Vec<Hash32> = Vec::new();
    let mut i: usize = 0;
    while i < v.len()
        invariant
            0 <= i <= v@.len(),
            r@.len() == i,
            ascending(r@),
            forall|x: Hash32| #[trigger] r@.contains(x) <==> v@.subrange(0, i as int).contains(x),
        decreases v@.len() - i,
    {
        let x = v[i];
        let mut p: usize = 0;
        while p < r.len()
            invariant
                0 <= p <= r@.len(),
                forall|k: int| 0 <= k < p ==> !lex_lt(x.0@, (#[trigger] r@[k]).0@),
            ensures
                p < r@.len() ==> lex_lt(x.0@, r@[p as int].0@),
                forall|k: int| 0 <= k < p ==> !lex_lt(x.0@, (#[trigger] r@[k]).0@),
            decreases r@.len() - p,
        {
            if x.less(&r[p]) {
                break;
            }
            p = p + 1;
        }
        let ghost pre = r@;
        r.insert(p, x);
        proof {
            assert(r@ == pre.insert(p as int, x));
            assert forall|a: int, b: int| 0 <= a < b < r@.len() implies !lex_lt((#[trigger] r@[b]).0@, (#[trigger] r@[a]).0@) by {
                if b < p {
                    assert(r@[a] == pre[a] && r@[b] == pre[b]);
                } else if a > p {
                    assert(r@[a] == pre[a - 1] && r@[b] == pre[b - 1]);
                } else if a == p {
                    assert(r@[b] == pre[b - 1]);
                    if p < pre.len() && lex_lt(pre[b - 1].0@, x.0@) {
                        if b - 1 > p {
                            assert(!lex_lt(pre[b - 1].0@, pre[p as int].0@));
                        }
                        lemma_lex_lt_trans(pre[b - 1].0@, x.0@, pre[p as int].0@);
                    }
                } else if b == p {
                    assert(r@[a] == pre[a]);
                } else {
                    assert(r@[a] == pre[a] && r@[b] == pre[b - 1]);
                }
            }
            assert(v@.subrange(0, i + 1) =~= v@.subrange(0, i as int).push(x));
            assert forall|y: Hash32| #[trigger] r@.contains(y) <==> v@.subrange(0, i + 1).contains(y) by {
                let lo = v@.subrange(0, i as int);
                let hi = v@.subrange(0, i + 1);
                if r@.contains(y) {
                    let t = choose|t: int| 0 <= t < r@.len() && r@[t] == y;
                    if t < p {
                        assert(pre[t] == y);
                    } else if t > p {
                        assert(pre[t - 1] == y);
                    }
                    if y != x {
                        assert(pre.contains(y));
                        let u = choose|u: int| 0 <= u < lo.len() && lo[u] == y;
                        assert(hi[u] == y);
                    } else {
                        assert(hi[i as int] == x);
                    }
                }
                if hi.contains(y) {
                    let u = choose|u: int| 0 <= u < hi.len() && hi[u] == y;
                    if u < i {
                        assert(lo[u] == y);
                        assert(pre.contains(y));
                        let t = choose|t: int| 0 <= t < pre.len() && pre[t] == y;
                        if t < p {
                            assert(r@[t] == y);
                        } else {
                            assert(r@[t + 1] == y);
                        }
                    } else {
                        assert(r@[p as int] == x);
                    }
                }
            }
        }
        i = i + 1;
    }
    assert(v@.subrange(0, v@.len() as int) =~= v@);
    r
}

/// A set closed under parents that contains `a` contains everything `a` reaches.
proof fn lemma_closed_contains(g: spec_fn(Hash32) -> Seq<Hash32>, s: Set<Hash32>, a: Hash32, b: Hash32, n: nat)
    requires
        s.contains(a),
        walk(g, a, b, n),
        forall|y: Hash32, i: int| #![trigger s.contains(y), g(y)[i]]
            s.contains(y) && 0 <= i < g(y).len() ==> s.contains(g(y)[i]),
    ensures
        s.contains(b),
    decreases n,
{
    if n > 0 {
        let k = choose|k: int| 0 <= k < g(a).len() && walk(g, #[trigger] g(a)[k], b, (n - 1) as nat);
        assert(s.contains(g(a)[k]));
        lemma_closed_contains(g, s, g(a)[k], b, (n - 1) as nat);
    }
}

/// Some entry of `order` before position `end` lists `x` among its parents.
pub open spec fn found_before<D: DagView + ?Sized>(dag: &D, order: Seq<Hash32>, end: int, x: Hash32) -> bool {
    exists|i: int| 0 <= i < end && #[trigger] parents_in(dag, order[i]).contains(x)
}

/// Discovery order of a walk from `order[0]`: every later entry is a parent
/// of an entry listed before it.
pub open spec fn discovery_order<D: DagView + ?Sized>(dag: &D, order: Seq<Hash32>) -> bool {
    forall|j: int| 0 < j < order.len() ==> #[trigger] found_before(dag, order, j, order[j])
}

/// Position of the first entry of `order` that lists `x` among its
/// parents, or `-1` when none does.
pub open spec fn first_lister<D: DagView + ?Sized>(dag: &D, order: Seq<Hash32>, x: Hash32) -> int
    decreases order.len(),
{
    if order.len() == 0 {
        -1
    } else {
        let r = first_lister(dag, order.drop_last(), x);
        if r >= 0 {
            r
        } else if parents_in(dag, order.last()).contains(x) {
            order.len() - 1
        } else {
            -1
        }
    }
}

/// The entries of `s` after the first are each listed by some entry of
/// `order`, and come grouped by the first entry of `order` that lists them,
/// in that entry's order; within a group, in strictly increasing byte order.
pub open spec fn layered_by<D: DagView + ?Sized>(dag: &D, order: Seq<Hash32>, s: Seq<Hash32>) -> bool {
    &&& forall|j: int| 0 < j < s.len() ==> 0 <= #[trigger] first_lister(dag, order, s[j]) < order.len()
    &&& forall|j: int, k: int| #![trigger s[j], s[k]] 0 < j < k < s.len() ==> {
        ||| first_lister(dag, order, s[j]) < first_lister(dag, order, s[k])
        ||| first_lister(dag, order, s[j]) == first_lister(dag, order, s[k]) && lex_lt(s[j].0@, s[k].0@)
    }
}

/// Breadth-first order: after the first entry, every entry is a parent of an
/// earlier one; entries come layer by layer in the order of the entry that
/// first lists them, and the parents that one entry adds come in strictly
/// increasing byte order.
pub open spec fn breadth_first<D: DagView + ?Sized>(dag: &D, order: Seq<Hash32>) -> bool {
    layered_by(dag, order, order)
}

proof fn lemma_first_lister<D: DagView + ?Sized>(dag: &D, order: Seq<Hash32>, x: Hash32)
    ensures
        -1 <= first_lister(dag, order, x) < order.len(),
        first_lister(dag, order, x) >= 0 ==> parents_in(dag, order[first_lister(dag, order, x)]).contains(x),
        first_lister(dag, order, x) < 0 ==> forall|t: int| 0 <= t < order.len() ==> !parents_in(dag, #[trigger] order[t]).contains(x),
    decreases order.len(),
{
    if order.len() > 0 {
        let o = order.drop_last();
        lemma_first_lister(dag, o, x);
        if first_lister(dag, o, x) >= 0 {
            assert(order[first_lister(dag, o, x)] == o[first_lister(dag, o, x)]);
        }
        if first_lister(dag, order, x) < 0 {
            assert forall|t: int| 0 <= t < order.len() implies !parents_in(dag, #[trigger] order[t]).contains(x) by {
                if t < o.len() {
                    assert(order[t] == o[t]);
                }
            }
        }
    }
}

proof fn lemma_first_lister_push<D: DagView + ?Sized>(dag: &D, o: Seq<Hash32>, y: Hash32, x: Hash32)
    ensures
        first_lister(dag, o.push(y), x) == (if first_lister(dag, o, x) >= 0 {
            first_lister(dag, o, x)
        } else if parents_in(dag, y).contains(x) {
            o.len() as int
        } else {
            -1
        }),
{
    assert(o.push(y).drop_last() =~= o);
}

proof fn lemma_layered_push<D: DagView + ?Sized>(dag: &D, o: Seq<Hash32>, y: Hash32, s: Seq<Hash32>)
    requires
        layered_by(dag, o, s),
    ensures
        layered_by(dag, o.push(y), s),
        forall|j: int| 0 < j < s.len() ==> #[trigger] first_lister(dag, o.push(y), s[j]) == first_lister(dag, o, s[j]),
{
    assert forall|j: int| 0 < j < s.len() implies #[trigger] first_lister(dag, o.push(y), s[j]) == first_lister(dag, o, s[j]) by {
        assert(0 <= first_lister(dag, o, s[j]));
        lemma_first_lister_push(dag, o, y, s[j]);
    }
}

proof fn lemma_layered_append<D: DagView + ?Sized>(dag: &D, o: Seq<Hash32>, s: Seq<Hash32>, p: Hash32)
    requires
        layered_by(dag, o, s),
        s.len() > 0,
        o.len() > 0,
        first_lister(dag, o, p) == o.len() - 1,
        forall|j: int| 0 < j < s.len() && #[trigger] first_lister(dag, o, s[j]) == o.len() - 1 ==> lex_lt(s[j].0@, p.0@),
    ensures
        layered_by(dag, o, s.push(p)),
{
    let s2 = s.push(p);
    assert forall|j: int| 0 < j < s2.len() implies 0 <= #[trigger] first_lister(dag, o, s2[j]) < o.len() by {
        if j < s.len() {
            assert(s2[j] == s[j]);
        }
    }
    assert forall|j: int, k: int| #![trigger s2[j], s2[k]] 0 < j < k < s2.len() implies {
        ||| first_lister(dag, o, s2[j]) < first_lister(dag, o, s2[k])
        ||| first_lister(dag, o, s2[j]) == first_lister(dag, o, s2[k]) && lex_lt(s2[j].0@, s2[k].0@)
    } by {
        assert(s2[j] == s[j]);
        if k < s.len() {
            assert(s2[k] == s[k]);
        } else {
            assert(s2[k] == p);
            assert(0 <= first_lister(dag, o, s[j]) < o.len());
        }
    }
}

proof fn lemma_hash_order_total(a: Hash32, b: Hash32)
    requires
        a != b,
    ensures
        lex_lt(a.0@, b.0@) || lex_lt(b.0@, a.0@),
{
    if a.0@ == b.0@ {
        assert(a.0 =~= b.0);
    }
    crate::bytes::lemma_lex_lt_total(a.0@, b.0@);
}

impl Linearization {
    /// Breadth-first walk over the anchor's causal past: the anchor first,
    /// then its ancestors layer by layer, each vertex's parents taken in
    /// ascending hash order, every hash once. Unknown vertices are listed
    /// but have no parents.
    #[verifier::rlimit(50)]
    pub fn closure_of_anchor<D: DagView + ?Sized>(anchor_hash: Hash32, dag: &D) -> (r: Result<Linearization>)
        ensures
            r matches Ok(lin) ==> {
                &&& lin.order@.len() > 0
                &&& lin.order@[0] == anchor_hash
                &&& lin.order@.no_duplicates()
                &&& forall|x: Hash32| #[trigger] lin.order@.contains(x) <==> reaches(dag, anchor_hash, x)
                &&& discovery_order(dag, lin.order@)
                &&& breadth_first(dag, lin.order@)
            },
            dag.spec_answers() ==> r is Ok,
    {
        let mut visited: KeySet<Hash32> = KeySet::new();
        let mut order: Vec<Hash32> = Vec::new();
        let mut queue: Vec<Hash32> = Vec::new();
        visited.insert(anchor_hash);
        queue.push(anchor_hash);
        proof {
            visited.lemma_len_bound();
            assert(path(dag, anchor_hash, anchor_hash, 0)) by {
                reveal_with_fuel(walk, 2);
            }
            assert(queue@[0] == anchor_hash);
        }
        while queue.len() > 0
            invariant
                visited.wf(),
                visited.elems().len() <= usize::MAX,
                visited@.contains(anchor_hash),
                order@.no_duplicates(),
                order@.len() > 0 ==> order@[0] == anchor_hash,
                order@.len() == 0 ==> queue@.len() > 0 && queue@[0] == anchor_hash,
                forall|h: Hash32| #[trigger] visited@.contains(h) ==> queue@.contains(h) || order@.contains(h),
                forall|h: Hash32| queue@.contains(h) ==> #[trigger] visited@.contains(h) && !order@.contains(h),
                forall|h: Hash32| #[trigger] order@.contains(h) ==> visited@.contains(h),
                queue@.no_duplicates(),
                forall|y: Hash32, i: int| #![trigger order@.contains(y), parents_in(dag, y)[i]]
                    order@.contains(y) && 0 <= i < parents_in(dag, y).len() ==> visited@.contains(parents_in(dag, y)[i]),
                forall|h: Hash32| #[trigger] visited@.contains(h) ==> reaches(dag, anchor_hash, h),
                discovery_order(dag, order@),
                forall|x: Hash32| #[trigger] queue@.contains(x) ==> x == anchor_hash || found_before(dag, order@, order@.len() as int, x),
                layered_by(dag, order@, order@ + queue@),
            decreases usize::MAX - visited.elems().len(), queue@.len(),
        {
            let ghost qb = queue@;
            let ghost ob = order@;
            let h = queue.remove(0);
            assert(qb[0] == h && qb.contains(h));
            assert(visited@.contains(h));
            order.push(h);
            proof {
                assert(order@ == ob.push(h));
                assert(order@.no_duplicates()) by {
                    assert forall|a: int, b: int| 0 <= a < order@.len() && 0 <= b < order@.len() && a != b implies order@[a] != order@[b] by {
                        if a < ob.len() && b < ob.len() {
                        } else if a == ob.len() {
                            assert(ob.contains(order@[b]));
                        } else {
                            assert(ob.contains(order@[a]));
                        }
                    }
                }
                if ob.len() == 0 {
                    assert(order@[0] == anchor_hash);
                } else {
                    assert(order@[0] == ob[0]);
                }
                assert forall|x: Hash32| #[trigger] queue@.contains(x) implies qb.contains(x) && x != h by {
                    let t = choose|t: int| 0 <= t < queue@.len() && queue@[t] == x;
                    assert(qb[t + 1] == x);
                }
                assert forall|x: Hash32| qb.contains(x) && x != h implies #[trigger] queue@.contains(x) by {
                    let t = choose|t: int| 0 <= t < qb.len() && qb[t] == x;
                    assert(t != 0);
                    assert(queue@[t - 1] == x);
                }
                assert(queue@.no_duplicates()) by {
                    assert forall|a: int, b: int| 0 <= a < queue@.len() && 0 <= b < queue@.len() && a != b implies queue@[a] != queue@[b] by {
                        assert(queue@[a] == qb[a + 1] && queue@[b] == qb[b + 1]);
                    }
                }
            }
            proof {
                assert forall|j: int| 0 < j < order@.len() implies #[trigger] found_before(dag, order@, j, order@[j]) by {
                    if j < ob.len() {
                        assert(found_before(dag, ob, j, ob[j]));
                        let i = choose|i: int| 0 <= i < j && #[trigger] parents_in(dag, ob[i]).contains(ob[j]);
                        assert(order@[i] == ob[i] && order@[j] == ob[j]);
                        assert(parents_in(dag, order@[i]).contains(order@[j]));
                    } else {
                        assert(order@[j] == h);
                        assert(ob.len() > 0);
                        assert(ob[0] == anchor_hash);
                        assert(ob.contains(anchor_hash));
                        assert(h != anchor_hash);
                        assert(found_before(dag, ob, ob.len() as int, h));
                        let i = choose|i: int| 0 <= i < ob.len() && #[trigger] parents_in(dag, ob[i]).contains(h);
                        assert(order@[i] == ob[i]);
                        assert(parents_in(dag, order@[i]).contains(order@[j]));
                    }
                }
                assert forall|x: Hash32| #[trigger] queue@.contains(x) implies x == anchor_hash || found_before(dag, order@, order@.len() as int, x) by {
                    assert(qb.contains(x));
                    if x != anchor_hash {
                        assert(found_before(dag, ob, ob.len() as int, x));
                        let i = choose|i: int| 0 <= i < ob.len() && #[trigger] parents_in(dag, ob[i]).contains(x);
                        assert(order@[i] == ob[i]);
                        assert(parents_in(dag, order@[i]).contains(x));
                    }
                }
            }
            proof {
                assert(order@ + queue@ =~= ob + qb);
                lemma_layered_push(dag, ob, h, ob + qb);
            }
            let v = dag.vertex(&h)?;
            let ps: Vec<Hash32> = match v {
                Some(cv) => cv.vertex.parents,
                None => Vec::new(),
            };
            assert(ps@ == parents_in(dag, h));
            let sorted = sort_hashes(&ps);
            let ghost vb = visited@;
            let ghost vb_len = visited.elems().len();
            let ghost qm = queue@;
            assert(order@[ob.len() as int] == h);
            let mut k: usize = 0;
            while k < sorted.len()
                invariant
                    0 <= k <= sorted@.len(),
                    forall|x: Hash32| #[trigger] sorted@.contains(x) <==> ps@.contains(x),
                    ps@ == parents_in(dag, h),
                    visited.wf(),
                    visited.elems().len() <= usize::MAX,
                    vb.subset_of(visited@),
                    visited@.contains(h),
                    order@.contains(h),
                    queue@.no_duplicates(),
                    forall|x: Hash32| #[trigger] visited@.contains(x) ==> vb.contains(x) || (queue@.contains(x) && sorted@.subrange(0, k as int).contains(x)),
                    forall|x: Hash32| #[trigger] queue@.contains(x) ==> qm.contains(x) || (!vb.contains(x) && visited@.contains(x)),
                    forall|x: Hash32| qm.contains(x) ==> #[trigger] queue@.contains(x),
                    forall|x: Hash32| queue@.contains(x) ==> #[trigger] visited@.contains(x),
                    visited.elems().len() >= vb_len,
                    visited.elems().len() == vb_len ==> queue@ == qm,
                    forall|j: int| 0 <= j < k ==> visited@.contains(#[trigger] sorted@[j]),
                    forall|x: Hash32| #[trigger] visited@.contains(x) ==> reaches(dag, anchor_hash, x),
                    reaches(dag, anchor_hash, h),
                    order@.len() == ob.len() + 1,
                    order@[ob.len() as int] == h,
                    forall|x: Hash32| #[trigger] queue@.contains(x) ==> x == anchor_hash || found_before(dag, order@, order@.len() as int, x),
                    order@ == ob.push(h),
                    ascending(sorted@),
                    forall|y: Hash32, i: int| #![trigger ob.contains(y), parents_in(dag, y)[i]]
                        ob.contains(y) && 0 <= i < parents_in(dag, y).len() ==> vb.contains(parents_in(dag, y)[i]),
                    layered_by(dag, order@, order@ + queue@),
                    forall|j: int| 0 < j < (order@ + queue@).len() && #[trigger] first_lister(dag, order@, (order@ + queue@)[j]) == ob.len()
                        ==> sorted@.subrange(0, k as int).contains((order@ + queue@)[j]),
                decreases sorted@.len() - k,
            {
                let p = sorted[k];
                assert(sorted@.subrange(0, k + 1) =~= sorted@.subrange(0, k as int).push(p));
                if !visited.contains(&p) {
                    proof {
                        assert(sorted@[k as int] == p);
                        assert(sorted@.contains(p));
                        assert(ps@.contains(p));
                        let i = choose|i: int| 0 <= i < ps@.len() && ps@[i] == p;
                        let n = choose|n: nat| #[trigger] path(dag, anchor_hash, h, n);
                        assert(graph(dag)(h) == parents_in(dag, h));
                        crate::bullshark::commit::lemma_walk_extend(graph(dag), anchor_hash, h, p, n, i);
                        assert(path(dag, anchor_hash, p, n + 1));
                    }
                    let ghost s1 = order@ + queue@;
                    proof {
                        lemma_first_lister(dag, ob, p);
                        if first_lister(dag, ob, p) >= 0 {
                            let t = first_lister(dag, ob, p);
                            assert(ob.contains(ob[t]));
                            let i2 = choose|i2: int| 0 <= i2 < parents_in(dag, ob[t]).len() && parents_in(dag, ob[t])[i2] == p;
                            assert(vb.contains(parents_in(dag, ob[t])[i2]));
                        }
                        lemma_first_lister_push(dag, ob, h, p);
                        assert(parents_in(dag, h).contains(p));
                        assert(first_lister(dag, order@, p) == order@.len() - 1);
                        assert forall|j: int| 0 < j < s1.len() && #[trigger] first_lister(dag, order@, s1[j]) == order@.len() - 1
                            implies lex_lt(s1[j].0@, p.0@) by {
                            assert(sorted@.subrange(0, k as int).contains(s1[j]));
                            let t = choose|t: int| 0 <= t < k && sorted@.subrange(0, k as int)[t] == s1[j];
                            assert(sorted@[t] == s1[j]);
                            assert(visited@.contains(sorted@[t]));
                            assert(!lex_lt(sorted@[k as int].0@, sorted@[t].0@));
                            lemma_hash_order_total(s1[j], p);
                        }
                        lemma_layered_append(dag, order@, s1, p);
                    }
                    let ghost q2 = queue@;
                    visited.insert(p);
                    queue.push(p);
                    proof {
                        visited.lemma_len_bound();
                        assert(queue@[q2.len() as int] == p);
                        let s2 = order@ + queue@;
                        assert(s2 =~= s1.push(p));
                        assert forall|j: int| 0 < j < s2.len() && #[trigger] first_lister(dag, order@, s2[j]) == ob.len()
                            implies sorted@.subrange(0, k + 1).contains(s2[j]) by {
                            if j < s1.len() {
                                assert(s2[j] == s1[j]);
                                let t = choose|t: int| 0 <= t < k && sorted@.subrange(0, k as int)[t] == s1[j];
                                assert(sorted@.subrange(0, k + 1)[t] == s1[j]);
                            } else {
                                assert(sorted@.subrange(0, k + 1)[k as int] == p);
                            }
                        }
                        assert(parents_in(dag, order@[ob.len() as int]).contains(p));
                        assert(found_before(dag, order@, order@.len() as int, p));
                        assert forall|x: Hash32| #[trigger] queue@.contains(x) implies x == anchor_hash || found_before(dag, order@, order@.len() as int, x) by {
                            if x != p {
                                let t = choose|t: int| 0 <= t < queue@.len() && queue@[t] == x;
                                if t < q2.len() {
                                    assert(q2[t] == x);
                                    assert(q2.contains(x));
                                }
                            }
                        }
                        assert(queue@.no_duplicates()) by {
                            assert forall|a: int, b: int| 0 <= a < queue@.len() && 0 <= b < queue@.len() && a != b implies queue@[a] != queue@[b] by {
                                if a < q2.len() && b < q2.len() {
                                    assert(queue@[a] == q2[a] && queue@[b] == q2[b]);
                                } else if a == q2.len() {
                                    assert(queue@[b] == q2[b]);
                                    assert(q2.contains(q2[b]));
                                    assert(visited@.contains(q2[b]) || q2[b] != p);
                                } else {
                                    assert(queue@[a] == q2[a]);
                                    assert(q2.contains(q2[a]));
                                }
                            }
                        }
                        assert forall|x: Hash32| #[trigger] visited@.contains(x) implies vb.contains(x) || (queue@.contains(x) && sorted@.subrange(0, k + 1).contains(x)) by {
                            if x == p {
                                assert(sorted@.subrange(0, k + 1)[k as int] == p);
                            } else if !vb.contains(x) {
                                let t = choose|t: int| 0 <= t < q2.len() && q2[t] == x;
                                assert(queue@[t] == x);
                                let u = choose|u: int| 0 <= u < k && sorted@.subrange(0, k as int)[u] == x;
                                assert(sorted@.subrange(0, k + 1)[u] == x);
                            }
                        }
                        assert forall|x: Hash32| #[trigger] queue@.contains(x) implies qm.contains(x) || (!vb.contains(x) && visited@.contains(x)) by {
                            let t = choose|t: int| 0 <= t < queue@.len() && queue@[t] == x;
                            if t < q2.len() {
                                assert(q2[t] == x);
                                assert(q2.contains(x));
                            }
                        }
                        assert forall|x: Hash32| queue@.contains(x) implies #[trigger] visited@.contains(x) by {
                            let t = choose|t: int| 0 <= t < queue@.len() && queue@[t] == x;
                            if t < q2.len() {
                                assert(q2[t] == x);
                                assert(q2.contains(x));
                            }
                        }
                        assert forall|x: Hash32| qm.contains(x) implies #[trigger] queue@.contains(x) by {
                            assert(q2.contains(x));
                            let t = choose|t: int| 0 <= t < q2.len() && q2[t] == x;
                            assert(queue@[t] == x);
                        }
                    }
                } else {
                    proof {
                        let s1 = order@ + queue@;
                        assert forall|j: int| 0 < j < s1.len() && #[trigger] first_lister(dag, order@, s1[j]) == ob.len()
                            implies sorted@.subrange(0, k + 1).contains(s1[j]) by {
                            let t = choose|t: int| 0 <= t < k && sorted@.subrange(0, k as int)[t] == s1[j];
                            assert(sorted@.subrange(0, k + 1)[t] == s1[j]);
                        }
                        assert forall|x: Hash32| #[trigger] visited@.contains(x) implies vb.contains(x) || (queue@.contains(x) && sorted@.subrange(0, k + 1).contains(x)) by {
                            if !vb.contains(x) {
                                let u = choose|u: int| 0 <= u < k && sorted@.subrange(0, k as int)[u] == x;
                                assert(sorted@.subrange(0, k + 1)[u] == x);
                            }
                        }
                    }
                }
                k = k + 1;
            }
            proof {
                assert forall|i: int| 0 <= i < parents_in(dag, h).len() implies visited@.contains(#[trigger] parents_in(dag, h)[i]) by {
                    assert(ps@.contains(ps@[i]));
                    assert(sorted@.contains(ps@[i]));
                    let t = choose|t: int| 0 <= t < sorted@.len() && sorted@[t] == ps@[i];
                    assert(sorted@.subrange(0, sorted@.len() as int) =~= sorted@);
                }
                assert forall|x: Hash32| #[trigger] visited@.contains(x) implies queue@.contains(x) || order@.contains(x) by {
                    if vb.contains(x) && !order@.contains(x) {
                        assert(qb.contains(x) || ob.contains(x));
                        if ob.contains(x) {
                            let t = choose|t: int| 0 <= t < ob.len() && ob[t] == x;
                            assert(order@[t] == x);
                        }
                        assert(qm.contains(x));
                    }
                }
                assert forall|x: Hash32| queue@.contains(x) implies #[trigger] visited@.contains(x) && !order@.contains(x) by {
                    if order@.contains(x) {
                        let t = choose|t: int| 0 <= t < order@.len() && order@[t] == x;
                        if t < ob.len() {
                            assert(ob.contains(x));
                        }
                    }
                }
                assert forall|x: Hash32| #[trigger] order@.contains(x) implies visited@.contains(x) by {
                    let t = choose|t: int| 0 <= t < order@.len() && order@[t] == x;
                    if t < ob.len() {
                        assert(ob[t] == x && ob.contains(x));
                    }
                }
                assert forall|y: Hash32, i: int| #![trigger order@.contains(y), parents_in(dag, y)[i]]
                    order@.contains(y) && 0 <= i < parents_in(dag, y).len() implies visited@.contains(parents_in(dag, y)[i]) by {
                    if y != h {
                        let t = choose|t: int| 0 <= t < order@.len() && order@[t] == y;
                        assert(ob[t] == y && ob.contains(y));
                    }
                }
            }
        }
        proof {
            let g = graph(dag);
            let s = order@.to_set();
            assert forall|y: Hash32, i: int| #![trigger s.contains(y), g(y)[i]]
                s.contains(y) && 0 <= i < g(y).len() implies s.contains(g(y)[i]) by {
                assert(order@.contains(y));
                assert(g(y) == parents_in(dag, y));
                assert(visited@.contains(parents_in(dag, y)[i]));
            }
            assert forall|x: Hash32| #[trigger] order@.contains(x) <==> reaches(dag, anchor_hash, x) by {
                if reaches(dag, anchor_hash, x) {
                    let n = choose|n: nat| #[trigger] path(dag, anchor_hash, x, n);
                    assert(s.contains(anchor_hash));
                    lemma_closed_contains(g, s, anchor_hash, x, n);
                }
            }
        }
        Ok(Linearization { order })
    }
}

/// Micro checkpoint hash over ordered vertex hashes: the micro-QC-tagged
/// digest of their length-prefixed list encoding.
pub open spec fn spec_checkpoint_hash(hashes: Seq<Hash32>) -> Seq<u8> {
    digest_with_dst(Dst::MicroQc, hash_list_bytes(hashes))
}

/// Checkpoint hash over an ordered list of certified vertices (their hashes only).
pub fn checkpoint_hash_from_rounds(vertices: &Vec<CertifiedVertex>) -> (r: Hash32)
    requires
        vertices@.len() <= u32::MAX,
    ensures
        r.0@ == spec_checkpoint_hash(vertices@.map_values(|cv: CertifiedVertex| cv.vertex.hash)),
{
    let mut hashes: Vec<Hash32> = Vec::new();
    let mut i: usize = 0;
    while i < vertices.len()
        invariant
            0 <= i <= vertices@.len(),
            hashes@ == vertices@.subrange(0, i as int).map_values(|cv: CertifiedVertex| cv.vertex.hash),
        decreases vertices@.len() - i,
    {
        hashes.push(vertices[i].vertex.hash);
        i = i + 1;
        assert(hashes@ =~= vertices@.subrange(0, i as int).map_values(|cv: CertifiedVertex| cv.vertex.hash));
    }
    assert(vertices@.subrange(0, vertices@.len() as int) =~= vertices@);
    let bytes = encode_hash_list(&hashes);
    blake3_with_dst(Dst::MicroQc, bytes.as_slice())
}

/// Checkpoint hash read directly from a linearization.
pub fn checkpoint_hash_from_linearization(lin: &Linearization) -> (r: Hash32)
    requires
        lin.order@.len() <= u32::MAX,
    ensures
        r.0@ == spec_checkpoint_hash(lin.order@),
{
    let bytes = encode_hash_list(&lin.order);
    blake3_with_dst(Dst::MicroQc, bytes.as_slice())
}

} // verus!
