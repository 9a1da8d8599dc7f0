//! Per-validator distributed vertex-certification state.
use vstd::prelude::*;
use crate::bytes::{lemma_lex_lt_irrefl, lemma_lex_lt_total, lemma_lex_lt_trans, lex_lt};
use crate::event::TimerId;
use crate::leader::timeout::TimerScheduler;
use crate::table::{KeySet, Table};
use crate::types::crypto_types::{BlsSig, Hash32};
use crate::types::dag::VertexProposal;
use crate::types::primitives::{Round, ValidatorId};

verus! {

broadcast use vstd::array::group_array_axioms;

/// Per-validator vertex-certification state.
#[derive(Debug)]
pub struct VertexBook {
    /// Validator this book belongs to.
    pub self_id: ValidatorId,
    /// Round of this node's latest own proposal.
    pub current_round: Round,
    /// `genesis_propose` already ran.
    pub started: bool,
    /// Certified vertex hashes by `(round, author)`.
    pub certified: Table<(Round, ValidatorId), Hash32>,
    /// This node's own proposals being collected, at most one per vertex hash.
    pub my_proposals: Vec<VertexProposal>,
    /// Partials collected for own proposals: `(vertex hash, voter)` to signature.
    pub collecting: Table<(Hash32, ValidatorId), BlsSig>,
    /// Hashes whose certificate was already broadcast.
    pub emitted_certs: KeySet<Hash32>,
    /// Proposals seen, in arrival order (equivocation detection).
    pub proposals_seen: Vec<VertexProposal>,
    /// `(round, author)` pairs this node already voted for.
    pub voted: KeySet<(Round, ValidatorId)>,
    /// Active fallback timer for `current_round`.
    pub round_timer: Option<TimerId>,
    /// Consecutive timer fires without round progress.
    pub timer_retries: u32,
    /// Timer-id allocator.
    pub timers: TimerScheduler,
    /// Invalid crypto dropped on receive.
    pub rejected_crypto: u64,
    /// A voter sent two different signatures for one vertex (the first is kept).
    pub partial_conflicts: u64,
    /// Round-timer fires while the round still lacked a quorum of certificates.
    pub rounds_stalled: u64,
}

/// No two proposals share a vertex hash.
pub open spec fn proposals_unique(ps: Seq<VertexProposal>) -> bool {
    forall|i: int, j: int|
        0 <= i < ps.len() && 0 <= j < ps.len() && i != j ==> (#[trigger] ps[i]).vertex.hash != (#[trigger] ps[j]).vertex.hash
}

/// Authors with a certified vertex at `round`.
pub open spec fn authors_at(m: Map<(Round, ValidatorId), Hash32>, round: Round) -> Set<ValidatorId> {
    Set::new(|a: ValidatorId| m.contains_key((round, a)))
}

/// `auth` lists, in increasing byte order, the `auth.len()` smallest members of `all`.
pub open spec fn lowest_authors(auth: Seq<ValidatorId>, all: Set<ValidatorId>) -> bool {
    &&& forall|i: int| 0 <= i < auth.len() ==> all.contains(#[trigger] auth[i])
    &&& forall|i: int, j: int| 0 <= i < j < auth.len() ==> lex_lt((#[trigger] auth[i]).0@, (#[trigger] auth[j]).0@)
    &&& forall|a: ValidatorId, i: int| #![trigger all.contains(a), auth[i]]
        all.contains(a) && !auth.contains(a) && 0 <= i < auth.len() ==> lex_lt(auth[i].0@, a.0@)
}

impl VertexBook {
    /// Internal consistency.
    pub open spec fn wf(&self) -> bool {
        &&& self.certified.wf()
        &&& proposals_unique(self.my_proposals@)
        &&& self.collecting.wf()
        &&& self.emitted_certs.wf()
        &&& self.voted.wf()
    }

    /// A fresh book for `self_id`: nothing seen, adopted, proposed or armed.
    pub open spec fn is_fresh(&self, self_id: ValidatorId) -> bool {
        &&& self.wf()
        &&& self.self_id == self_id
        &&& self.current_round == Round(0)
        &&& !self.started
        &&& self.certified@ == Map::<(Round, ValidatorId), Hash32>::empty()
        &&& self.my_proposals@.len() == 0
        &&& self.collecting@ == Map::<(Hash32, ValidatorId), BlsSig>::empty()
        &&& self.emitted_certs@ == Set::<Hash32>::empty()
        &&& self.proposals_seen@.len() == 0
        &&& self.voted@ == Set::<(Round, ValidatorId)>::empty()
        &&& self.round_timer is None
        &&& self.timer_retries == 0
        &&& self.timers.spec_next() == 0
        &&& self.rejected_crypto == 0
        &&& self.partial_conflicts == 0
        &&& self.rounds_stalled == 0
    }

    /// Fresh book for `self_id` at round 0, not yet started.
    pub fn new(self_id: ValidatorId) -> (b: Self)
        ensures
            b.is_fresh(self_id),
    {
        VertexBook {
            self_id,
            current_round: Round(0),
            started: false,
            certified: Table::new(),
            my_proposals: Vec::new(),
            collecting: Table::new(),
            emitted_certs: KeySet::new(),
            proposals_seen: Vec::new(),
            voted: KeySet::new(),
            round_timer: None,
            timer_retries: 0,
            timers: TimerScheduler::new(),
            rejected_crypto: 0,
            partial_conflicts: 0,
            rounds_stalled: 0,
        }
    }

    /// Round of this node's latest own proposal.
    pub fn current_round(&self) -> (r: u64)
        ensures
            r == self.current_round.0,
    {
        self.current_round.0
    }

    /// Invalid crypto drops.
    pub fn rejected_crypto(&self) -> (r: u64)
        ensures
            r == self.rejected_crypto,
    {
        self.rejected_crypto
    }

    /// Conflicting duplicate partials.
    pub fn partial_conflicts(&self) -> (r: u64)
        ensures
            r == self.partial_conflicts,
    {
        self.partial_conflicts
    }

    /// Stalled-round timer fires.
    pub fn rounds_stalled(&self) -> (r: u64)
        ensures
            r == self.rounds_stalled,
    {
        self.rounds_stalled
    }

    /// Number of certified vertices known at `round`.
    pub fn certified_count_at(&self, round: Round) -> (r: usize)
        requires
            self.wf(),
        ensures
            r == authors_at(self.certified@, round).len(),
            authors_at(self.certified@, round).finite(),
    {
        let v = certs_at(&self.certified, round);
        proof {
            lemma_certs_at_count_map(self.certified@, round, v@);
        }
        v.len()
    }
}

/// `v` lists each author certified at `round` once, with its hash.
pub open spec fn lists_certs(m: Map<(Round, ValidatorId), Hash32>, round: Round, v: Seq<(ValidatorId, Hash32)>) -> bool {
    &&& forall|k: int| 0 <= k < v.len() ==> m.contains_key((round, (#[trigger] v[k]).0)) && m[(round, v[k].0)] == v[k].1
    &&& forall|a: ValidatorId| m.contains_key((round, a)) ==> exists|k: int| 0 <= k < v.len() && (#[trigger] v[k]).0 == a
    &&& forall|i: int, j: int| 0 <= i < v.len() && 0 <= j < v.len() && i != j ==> (#[trigger] v[i]).0 != (#[trigger] v[j]).0
}

/// The certified `(author, hash)` pairs at `round`, in storage order.
pub fn certs_at(t: &Table<(Round, ValidatorId), Hash32>, round: Round) -> (v: Vec<(ValidatorId, Hash32)>)
    requires
        t.wf(),
    ensures
        lists_certs(t@, round, v@),
{
    let mut v: Vec<(ValidatorId, Hash32)> = Vec::new();
    let mut i: usize = 0;
    while i < t.len()
        invariant
            t.wf(),
            0 <= i <= t.pairs().len(),
            forall|k: int| 0 <= k < v@.len() ==> t@.contains_key((round, (#[trigger] v@[k]).0)) && t@[(round, v@[k].0)] == v@[k].1,
            forall|k: int| 0 <= k < v@.len() ==> exists|j: int| 0 <= j < i && (#[trigger] t.pairs()[j]).0 == (round, (#[trigger] v@[k]).0),
            forall|j: int| 0 <= j < i && (#[trigger] t.pairs()[j]).0.0 == round ==> exists|k: int| 0 <= k < v@.len() && v@[k].0 == t.pairs()[j].0.1,
            forall|a: int, b: int| 0 <= a < v@.len() && 0 <= b < v@.len() && a != b ==> (#[trigger] v@[a]).0 != (#[trigger] v@[b]).0,
        decreases t.pairs().len() - i,
    {
        let (k, h) = t.pair(i);
        proof {
            t.lemma_at(i as int);
        }
        if k.0.0 == round.0 {
            let ghost pre = v@;
            proof {
                assert forall|a: int| 0 <= a < pre.len() implies pre[a].0 != k.1 by {
                    let j = choose|j: int| 0 <= j < i && (#[trigger] t.pairs()[j]).0 == (round, pre[a].0);
                    if pre[a].0 == k.1 {
                        assert(t.pairs()[j].0 == t.pairs()[i as int].0);
                    }
                }
            }
            v.push((k.1, h));
            assert forall|kk: int| 0 <= kk < v@.len() implies exists|j: int| 0 <= j < i + 1 && (#[trigger] t.pairs()[j]).0 == (round, (#[trigger] v@[kk]).0) by {
                if kk < pre.len() {
                    assert(v@[kk] == pre[kk]);
                } else {
                    assert(t.pairs()[i as int].0 == (round, v@[kk].0));
                }
            }
            assert forall|j: int| 0 <= j < i + 1 && (#[trigger] t.pairs()[j]).0.0 == round implies exists|kk: int| 0 <= kk < v@.len() && v@[kk].0 == t.pairs()[j].0.1 by {
                if j < i {
                    let kk = choose|kk: int| 0 <= kk < pre.len() && pre[kk].0 == t.pairs()[j].0.1;
                    assert(v@[kk] == pre[kk]);
                } else {
                    assert(v@[pre.len() as int].0 == t.pairs()[j].0.1);
                }
            }
        }
        i = i + 1;
    }
    proof {
        assert forall|a: ValidatorId| t@.contains_key((round, a)) implies exists|kk: int| 0 <= kk < v@.len() && (#[trigger] v@[kk]).0 == a by {
            let j = choose|j: int| 0 <= j < t.pairs().len() && #[trigger] t.pairs()[j].0 == (round, a);
            assert(t.pairs()[j].0.0 == round);
        }
    }
    v
}

/// Some member of a finite set is missing from a shorter duplicate-free list of its members.
proof fn lemma_member_left(auth: Seq<ValidatorId>, all: Set<ValidatorId>)
    requires
        all.finite(),
        auth.no_duplicates(),
        auth.len() < all.len(),
    ensures
        exists|a: ValidatorId| all.contains(a) && !auth.contains(a),
{
    if forall|a: ValidatorId| all.contains(a) ==> auth.contains(a) {
        auth.unique_seq_to_set();
        assert(all.subset_of(auth.to_set()));
        vstd::set_lib::lemma_len_subset(all, auth.to_set());
    }
}

/// Equal bytes, equal identity.
pub proof fn lemma_id_bytes(a: ValidatorId, b: ValidatorId)
    requires
        a.0@ == b.0@,
    ensures
        a == b,
{
    assert(a.0 =~= b.0);
}

/// The hashes of the `need` smallest authors in `v`, in increasing author order.
pub(crate) fn pick_parents(v: &Vec<(ValidatorId, Hash32)>, need: usize, m: Ghost<Map<(Round, ValidatorId), Hash32>>, round: Ghost<Round>) -> (parents: Vec<Hash32>)
    requires
        lists_certs(m@, round@, v@),
        need <= v@.len(),
    ensures
        parents@.len() == need,
        exists|auth: Seq<ValidatorId>| {
            &&& auth.len() == need
            &&& lowest_authors(auth, authors_at(m@, round@))
            &&& forall|i: int| 0 <= i < need ==> #[trigger] parents@[i] == m@[(round@, auth[i])]
        },
{
    let ghost all = authors_at(m@, round@);
    proof {
        lemma_certs_at_count_map(m@, round@, v@);
    }
    let mut parents: Vec<Hash32> = Vec::new();
    let ghost mut auth: Seq<ValidatorId> = Seq::empty();
    let mut last: Option<ValidatorId> = None;
    while parents.len() < need
        invariant
            lists_certs(m@, round@, v@),
            need <= v@.len(),
            all == authors_at(m@, round@),
            all.finite(),
            all.len() == v@.len(),
            parents@.len() == auth.len(),
            auth.len() <= need,
            lowest_authors(auth, all),
            forall|i: int| 0 <= i < auth.len() ==> #[trigger] parents@[i] == m@[(round@, auth[i])],
            match last {
                None => auth.len() == 0,
                Some(l) => auth.len() > 0 && l == auth.last(),
            },
        decreases need - parents@.len(),
    {
        proof {
            assert(auth.no_duplicates()) by {
                assert forall|i: int, j: int| 0 <= i < auth.len() && 0 <= j < auth.len() && i != j implies auth[i] != auth[j] by {
                    if i < j {
                        assert(lex_lt(auth[i].0@, auth[j].0@));
                    } else {
                        assert(lex_lt(auth[j].0@, auth[i].0@));
                    }
                    if auth[i] == auth[j] {
                        lemma_lex_lt_irrefl(auth[i].0@);
                    }
                }
            }
            lemma_member_left(auth, all);
        }
        let ghost witness = choose|a: ValidatorId| all.contains(a) && !auth.contains(a);
        let mut best: Option<usize> = None;
        let mut k: usize = 0;
        while k < v.len()
            invariant
                0 <= k <= v@.len(),
                lists_certs(m@, round@, v@),
                match best {
                    Some(b) => b < k && (match last { None => true, Some(l) => lex_lt(l.0@, v@[b as int].0.0@) })
                        && forall|j: int| 0 <= j < k && (match last { None => true, Some(l) => lex_lt(l.0@, v@[j].0.0@) })
                            ==> !lex_lt((#[trigger] v@[j]).0.0@, v@[b as int].0.0@),
                    None => forall|j: int| 0 <= j < k ==> !(match last { None => true, Some(l) => lex_lt(l.0@, (#[trigger] v@[j]).0.0@) }),
                },
            decreases v@.len() - k,
        {
            let above = match last {
                None => true,
                Some(l) => l.less(&v[k].0),
            };
            if above {
                match best {
                    None => {
                        best = Some(k);
                    },
                    Some(b) => {
                        if v[k].0.less(&v[b].0) {
                            proof {
                                assert forall|j: int| 0 <= j < k + 1 && (match last { None => true, Some(l) => lex_lt(l.0@, v@[j].0.0@) })
                                    implies !lex_lt((#[trigger] v@[j]).0.0@, v@[k as int].0.0@) by {
                                    if j < k {
                                        if lex_lt(v@[j].0.0@, v@[k as int].0.0@) {
                                            lemma_lex_lt_trans(v@[j].0.0@, v@[k as int].0.0@, v@[b as int].0.0@);
                                        }
                                    } else {
                                        lemma_lex_lt_irrefl(v@[k as int].0.0@);
                                    }
                                }
                            }
                            best = Some(k);
                        }
                    },
                }
            }
            k = k + 1;
        }
        proof {
            let kw = choose|kk: int| 0 <= kk < v@.len() && (#[trigger] v@[kk]).0 == witness;
            match last {
                None => {},
                Some(l) => {
                    let li = auth.len() - 1;
                    assert(lex_lt(auth[li].0@, witness.0@));
                },
            }
            assert(v@[kw].0 == witness);
        }
        let b = match best {
            Some(b) => b,
            None => {
                return parents;
            },
        };
        let chosen = v[b].0;
        let ghost pre_auth = auth;
        proof {
            auth = auth.push(chosen);
            assert(all.contains(chosen));
            assert forall|a: ValidatorId, i: int| #![trigger all.contains(a), auth[i]]
                all.contains(a) && !auth.contains(a) && 0 <= i < auth.len() implies lex_lt(auth[i].0@, a.0@) by {
                assert(!pre_auth.contains(a)) by {
                    if pre_auth.contains(a) {
                        let t = choose|t: int| 0 <= t < pre_auth.len() && pre_auth[t] == a;
                        assert(auth[t] == a);
                    }
                }
                let ka = choose|kk: int| 0 <= kk < v@.len() && (#[trigger] v@[kk]).0 == a;
                let above_a = match last { None => true, Some(l) => lex_lt(l.0@, a.0@) };
                assert(above_a) by {
                    match last {
                        None => {},
                        Some(l) => {
                            assert(lex_lt(pre_auth[pre_auth.len() - 1].0@, a.0@));
                        },
                    }
                }
                assert(v@[ka].0 == a);
                assert(!lex_lt(a.0@, chosen.0@));
                assert(a != chosen) by {
                    assert(auth[pre_auth.len() as int] == chosen);
                }
                if a.0@ == chosen.0@ {
                    lemma_id_bytes(a, chosen);
                }
                lemma_lex_lt_total(a.0@, chosen.0@);
                if i < pre_auth.len() {
                    assert(auth[i] == pre_auth[i]);
                } else {
                    assert(auth[i] == chosen);
                }
            }
            assert forall|i: int, j: int| 0 <= i < j < auth.len() implies lex_lt((#[trigger] auth[i]).0@, (#[trigger] auth[j]).0@) by {
                if j < pre_auth.len() {
                    assert(auth[i] == pre_auth[i] && auth[j] == pre_auth[j]);
                } else {
                    assert(auth[j] == chosen);
                    match last {
                        None => {},
                        Some(l) => {
                            assert(l == pre_auth[pre_auth.len() - 1]);
                            if i < pre_auth.len() - 1 {
                                assert(auth[i] == pre_auth[i]);
                                lemma_lex_lt_trans(auth[i].0@, l.0@, chosen.0@);
                            }
                        },
                    }
                }
            }
        }
        parents.push(v[b].1);
        last = Some(chosen);
        proof {
            assert forall|i: int| 0 <= i < auth.len() implies #[trigger] parents@[i] == m@[(round@, auth[i])] by {
                if i < pre_auth.len() {
                    assert(auth[i] == pre_auth[i]);
                }
            }
        }
    }
    parents
}

/// Map-level form of the listing count.
pub proof fn lemma_certs_at_count_map(m: Map<(Round, ValidatorId), Hash32>, round: Round, v: Seq<(ValidatorId, Hash32)>)
    requires
        lists_certs(m, round, v),
    ensures
        authors_at(m, round).finite(),
        authors_at(m, round).len() == v.len(),
{
    let ids = v.map_values(|p: (ValidatorId, Hash32)| p.0);
    assert(ids.no_duplicates()) by {
        assert forall|i: int, j: int| 0 <= i < ids.len() && 0 <= j < ids.len() && i != j implies ids[i] != ids[j] by {
            assert(ids[i] == v[i].0 && ids[j] == v[j].0);
        }
    }
    assert(ids.to_set() =~= authors_at(m, round)) by {
        assert forall|a: ValidatorId| ids.to_set().contains(a) implies authors_at(m, round).contains(a) by {
            let k = choose|k: int| 0 <= k < ids.len() && ids[k] == a;
            assert(v[k].0 == a);
        }
        assert forall|a: ValidatorId| authors_at(m, round).contains(a) implies ids.to_set().contains(a) by {
            let k = choose|k: int| 0 <= k < v.len() && (#[trigger] v[k]).0 == a;
            assert(ids[k] == a);
        }
    }
    ids.unique_seq_to_set();
}

} // verus!
