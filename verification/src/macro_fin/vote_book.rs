//! Per-validator vote history (epoch-indexed) for surround and double-vote detection.
use vstd::prelude::*;
use crate::types::crypto_types::{BlsSig, Hash32};
use crate::types::primitives::{Epoch, ValidatorId};

verus! {

/// A single macro vote: `(source, target, checkpoint_hash, sig)`.
#[derive(Clone, Copy, Debug, PartialEq, Eq)]
pub struct VoteRecord {
    /// Casper-FFG source epoch.
    pub source: Epoch,
    /// Casper-FFG target epoch.
    pub target: Epoch,
    /// Hash of the attested checkpoint.
    pub checkpoint: Hash32,
    /// BLS signature over the vote message.
    pub sig: BlsSig,
}

/// The votes of `v` in `log`, in recording order.
pub open spec fn votes_in(log: Seq<(ValidatorId, VoteRecord)>, v: ValidatorId) -> Seq<VoteRecord>
    decreases log.len(),
{
    if log.len() == 0 {
        Seq::empty()
    } else {
        let rest = votes_in(log.drop_last(), v);
        if log.last().0 == v {
            rest.push(log.last().1)
        } else {
            rest
        }
    }
}

/// Per-validator vote history.
#[derive(Debug)]
pub struct VoteBook {
    /// Every recorded vote with its voter, in recording order.
    pub log: Vec<(ValidatorId, VoteRecord)>,
}

impl VoteBook {
    /// Votes of `v`, in recording order.
    pub open spec fn spec_votes_of(&self, v: ValidatorId) -> Seq<VoteRecord> {
        votes_in(self.log@, v)
    }

    /// New empty book.
    pub fn new() -> (b: Self)
        ensures
            forall|v: ValidatorId| (#[trigger] b.spec_votes_of(v)).len() == 0,
            b.log@.len() == 0,
    {
        VoteBook { log: Vec::new() }
    }

    /// Record `record` for `validator`.
    pub fn record(&mut self, validator: ValidatorId, record: VoteRecord)
        ensures
            final(self).log@ == old(self).log@.push((validator, record)),
            final(self).spec_votes_of(validator) == old(self).spec_votes_of(validator).push(record),
            forall|w: ValidatorId| w != validator ==> #[trigger] final(self).spec_votes_of(w) == old(self).spec_votes_of(w),
    {
        let ghost pre = self.log@;
        self.log.push((validator, record));
        assert(self.log@.drop_last() =~= pre);
    }

    /// `validator`'s votes, in recording order.
    pub fn votes_of(&self, validator: &ValidatorId) -> (r: Vec<VoteRecord>)
        ensures
            r@ == self.spec_votes_of(*validator),
    {
        let mut r: Vec<VoteRecord> = Vec::new();
        let mut i: usize = 0;
        while i < self.log.len()
            invariant
                0 <= i <= self.log.len(),
                r@ == votes_in(self.log@.subrange(0, i as int), *validator),
            decreases self.log.len() - i,
        {
            let (v, rec) = self.log[i];
            assert(self.log@.subrange(0, i + 1).drop_last() =~= self.log@.subrange(0, i as int));
            if v.same(validator) {
                r.push(rec);
            }
            i = i + 1;
        }
        assert(self.log@.subrange(0, self.log@.len() as int) =~= self.log@);
        r
    }
}

impl Default for VoteBook {
    fn default() -> (b: Self)
        ensures
            forall|v: ValidatorId| (#[trigger] b.spec_votes_of(v)).len() == 0,
            b.log@.len() == 0,
    {
        VoteBook::new()
    }
}

} // verus!
