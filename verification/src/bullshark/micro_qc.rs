//! MicroQc aggregation over the authors of a linearized batch, and the set of
//! checkpoints a MicroQc was already broadcast for.
use vstd::prelude::*;
use crate::bitmap::{build_bitmap, encode_bits};
use crate::config::Config;
use crate::error::Result;
use crate::host_context::HostContext;
use crate::macro_fin::support::active_set;
use crate::signers::{member_bits, quorum, quorum_threshold, signer_bits};
use crate::table::KeySet;
use crate::types::crypto_types::{BlsAggSig, BlsSig, Hash32};
use crate::types::dag::CertifiedVertex;
use crate::types::micro::MicroQc;
use crate::types::primitives::{Epoch, ValidatorId};

verus! {

/// Checkpoint hashes this validator already broadcast a MicroQc for.
#[derive(Debug)]
pub struct EmittedSet {
    inner: KeySet<Hash32>,
}

impl EmittedSet {
    /// The emitted checkpoint hashes.
    pub closed spec fn view(&self) -> Set<Hash32> {
        self.inner@
    }

    /// Internal consistency.
    pub closed spec fn wf(&self) -> bool {
        self.inner.wf()
    }

    /// New empty set.
    pub fn new() -> (s: Self)
        ensures
            s.wf(),
            s@ == Set::<Hash32>::empty(),
    {
        EmittedSet { inner: KeySet::new() }
    }

    /// `hash` was already emitted.
    pub fn contains(&self, hash: &Hash32) -> (r: bool)
        ensures
            r == self@.contains(*hash),
    {
        self.inner.contains(hash)
    }

    /// Mark `hash` emitted; `true` when it was not yet.
    pub fn insert(&mut self, hash: Hash32) -> (fresh: bool)
        requires
            old(self).wf(),
        ensures
            final(self).wf(),
            final(self)@ == old(self)@.insert(hash),
            fresh == !old(self)@.contains(hash),
    {
        self.inner.insert(hash)
    }

    /// Number of distinct emissions.
    pub fn len(&self) -> (r: usize)
        requires
            self.wf(),
        ensures
            r == self@.len(),
            self@.finite(),
    {
        proof {
            self.inner.lemma_len();
        }
        self.inner.len()
    }

    /// Nothing emitted yet.
    pub fn is_empty(&self) -> (r: bool)
        requires
            self.wf(),
        ensures
            r == (self@.len() == 0),
    {
        self.len() == 0
    }
}

impl Default for EmittedSet {
    fn default() -> (s: Self)
        ensures
            s.wf(),
            s@ == Set::<Hash32>::empty(),
    {
        EmittedSet::new()
    }
}

/// Builder handle for a MicroQc over one checkpoint hash.
#[derive(Debug)]
pub struct MicroQcBuilder<'a> {
    /// Active config.
    pub config: &'a Config,
    /// Hash of the checkpoint being attested.
    pub target: Hash32,
}

impl<'a> MicroQcBuilder<'a> {
    /// New builder targeting `target`.
    pub fn new(config: &'a Config, target: Hash32) -> (b: Self)
        ensures
            b.config == config,
            b.target == target,
    {
        MicroQcBuilder { config, target }
    }
}

/// Authors of the vertices in `vs`.
pub open spec fn authors_of(vs: Seq<CertifiedVertex>) -> Set<ValidatorId> {
    Set::new(|a: ValidatorId| exists|i: int| 0 <= i < vs.len() && (#[trigger] vs[i]).vertex.author == a)
}

/// The placeholder aggregate signature of a MicroQc: 96 bytes of `0xAB`.
pub open spec fn micro_sig() -> Seq<u8> {
    Seq::new(96, |i: int| 0xABu8)
}

/// Flat MicroQc over the authors of the linearized batch: `None` for an
/// empty set or when the distinct authors are fewer than `2f + 1` of the set,
/// else the QC whose bitmap marks the set entries that authored a vertex.
pub fn try_finalize(checkpoint_hash: Hash32, linearized: &Vec<CertifiedVertex>, ctx: &HostContext) -> (r: Result<Option<MicroQc>>)
    ensures
        ctx.valset.spec_set_for(Epoch(0)) is None ==> r is Err,
        ctx.valset.spec_answers() && ctx.valset.spec_set_for(Epoch(0)) is Some ==> r is Ok,
        r is Ok ==> ctx.valset.spec_set_for(Epoch(0)) is Some,
        r is Ok ==> ({
            let set = ctx.valset.spec_set_for(Epoch(0))->0;
            let authors = authors_of(linearized@);
            let n = set.entries@.len();
            let ok = n > 0 && authors.len() >= quorum(n);
            &&& authors.finite()
            &&& (r == Ok::<Option<MicroQc>, crate::error::Error>(None) <==> !ok)
            &&& (r matches Ok(Some(qc)) ==> qc.checkpoint_hash == checkpoint_hash && qc.agg.sig.0@ == micro_sig()
                && qc.agg.bitmap@ == encode_bits(member_bits(set.ids(), authors)))
        }),
{
    let set = active_set(ctx)?;
    let mut authors: KeySet<ValidatorId> = KeySet::new();
    let mut i: usize = 0;
    while i < linearized.len()
        invariant
            0 <= i <= linearized@.len(),
            authors.wf(),
            forall|a: ValidatorId| #[trigger] authors@.contains(a) <==> exists|j: int| 0 <= j < i && (#[trigger] linearized@[j]).vertex.author == a,
        decreases linearized@.len() - i,
    {
        authors.insert(linearized[i].vertex.author);
        proof {
            assert forall|a: ValidatorId| #[trigger] authors@.contains(a) <==> exists|j: int| 0 <= j < i + 1 && (#[trigger] linearized@[j]).vertex.author == a by {
                if a == linearized@[i as int].vertex.author {
                    assert(linearized@[i as int].vertex.author == a);
                }
                if exists|j: int| 0 <= j < i + 1 && (#[trigger] linearized@[j]).vertex.author == a {
                    let j = choose|j: int| 0 <= j < i + 1 && (#[trigger] linearized@[j]).vertex.author == a;
                    if j < i {
                        assert(linearized@[j].vertex.author == a);
                    }
                }
            }
        }
        i = i + 1;
    }
    assert(authors@ =~= authors_of(linearized@));
    proof {
        authors.lemma_len();
    }
    let n = set.entries.len();
    if n == 0 {
        return Ok(None);
    }
    let need = quorum_threshold(n);
    if authors.len() < need {
        return Ok(None);
    }
    let bits = signer_bits(&set, &authors);
    let bitmap = build_bitmap(&bits);
    let sig = BlsSig([0xABu8; 96]);
    assert(sig.0@ =~= micro_sig());
    Ok(Some(MicroQc { checkpoint_hash, agg: BlsAggSig { sig, bitmap } }))
}

} // verus!
