//! Quorum arithmetic and signer selection over a validator set.
use vstd::prelude::*;
use crate::table::{KeySet, Table};
use crate::types::crypto_types::{BlsSig, Hash32};
use crate::types::primitives::ValidatorId;
use crate::types::validator::ValidatorSet;

verus! {

/// Byzantine tolerance `f = (n - 1) / 3` and quorum `2f + 1` of `n >= 1` members.
pub open spec fn quorum(n: nat) -> nat {
    2 * (((n - 1) as nat) / 3) + 1
}

/// Quorum size `2f + 1` with `f = (n - 1) / 3`.
pub fn quorum_threshold(n: usize) -> (q: usize)
    requires
        n >= 1,
    ensures
        q == quorum(n as nat),
        1 <= q <= n,
{
    2 * ((n - 1) / 3) + 1
}

/// When `n = 3f + 1`, two quorums of the same set share more than `f`
/// members, so at least one honest one.
pub proof fn lemma_quorum_intersection(n: nat)
    requires
        n >= 1,
        n % 3 == 1,
    ensures
        2 * quorum(n) - n >= ((n - 1) as nat) / 3 + 1,
        quorum(n) <= n,
{
}

/// Membership bit of every set entry, in set order.
pub open spec fn member_bits(ids: Seq<ValidatorId>, signers: Set<ValidatorId>) -> Seq<bool> {
    Seq::new(ids.len(), |i: int| signers.contains(ids[i]))
}

/// Membership bits of `signers` over the entries of `set`.
pub fn signer_bits(set: &ValidatorSet, signers: &KeySet<ValidatorId>) -> (r: Vec<bool>)
    ensures
        r@ == member_bits(set.ids(), signers@),
{
    let mut r: Vec<bool> = Vec::new();
    let mut i: usize = 0;
    while i < set.entries.len()
        invariant
            0 <= i <= set.entries.len(),
            r@ == member_bits(set.ids(), signers@).subrange(0, i as int),
        decreases set.entries.len() - i,
    {
        let b = signers.contains(&set.entries[i].id);
        r.push(b);
        i = i + 1;
        assert(r@ =~= member_bits(set.ids(), signers@).subrange(0, i as int));
    }
    assert(member_bits(set.ids(), signers@).subrange(0, set.entries@.len() as int) =~= member_bits(set.ids(), signers@));
    r
}

/// The stored signatures on `target` of the entries whose bit is set, in set
/// order, or `None` when one of them has none stored.
pub open spec fn chosen_sigs(ids: Seq<ValidatorId>, bits: Seq<bool>, sigs: Map<(Hash32, ValidatorId), BlsSig>, target: Hash32) -> Option<Seq<BlsSig>>
    decreases ids.len(),
{
    if ids.len() == 0 {
        Some(Seq::empty())
    } else {
        match chosen_sigs(ids.drop_last(), bits, sigs, target) {
            None => None,
            Some(prev) => {
                let i = ids.len() - 1;
                if i < bits.len() && bits[i] {
                    if sigs.contains_key((target, ids[i])) {
                        Some(prev.push(sigs[(target, ids[i])]))
                    } else {
                        None
                    }
                } else {
                    Some(prev)
                }
            },
        }
    }
}

/// Signatures on `target` of the entries of `set` whose bit is set, in set order.
pub fn collect_sigs(set: &ValidatorSet, bits: &Vec<bool>, sigs: &Table<(Hash32, ValidatorId), BlsSig>, target: Hash32) -> (r: Option<Vec<BlsSig>>)
    requires
        sigs.wf(),
    ensures
        match r {
            Some(v) => chosen_sigs(set.ids(), bits@, sigs@, target) == Some(v@),
            None => chosen_sigs(set.ids(), bits@, sigs@, target) is None,
        },
{
    let mut out: Vec<BlsSig> = Vec::new();
    let mut i: usize = 0;
    while i < set.entries.len()
        invariant
            sigs.wf(),
            0 <= i <= set.entries.len(),
            chosen_sigs(set.ids().subrange(0, i as int), bits@, sigs@, target) == Some(out@),
        decreases set.entries.len() - i,
    {
        assert(set.ids().subrange(0, i + 1).drop_last() =~= set.ids().subrange(0, i as int));
        if i < bits.len() && bits[i] {
            let id = set.entries[i].id;
            match sigs.get(&(target, id)) {
                Some(s) => {
                    out.push(s);
                },
                None => {
                    proof {
                        lemma_chosen_none_extends(set.ids(), bits@, sigs@, target, i as int + 1);
                    }
                    return None;
                },
            }
        }
        i = i + 1;
    }
    assert(set.ids().subrange(0, set.entries@.len() as int) =~= set.ids());
    Some(out)
}

proof fn lemma_chosen_none_extends(ids: Seq<ValidatorId>, bits: Seq<bool>, sigs: Map<(Hash32, ValidatorId), BlsSig>, target: Hash32, k: int)
    requires
        0 <= k <= ids.len(),
        chosen_sigs(ids.subrange(0, k), bits, sigs, target) is None,
    ensures
        chosen_sigs(ids, bits, sigs, target) is None,
    decreases ids.len() - k,
{
    if k < ids.len() {
        assert(ids.subrange(0, k + 1).drop_last() =~= ids.subrange(0, k));
        lemma_chosen_none_extends(ids, bits, sigs, target, k + 1);
    } else {
        assert(ids.subrange(0, k) =~= ids);
    }
}

/// Number of entries of `set` whose id is in `members`.
pub open spec fn count_members(ids: Seq<ValidatorId>, members: Set<ValidatorId>) -> nat
    decreases ids.len(),
{
    if ids.len() == 0 {
        0
    } else {
        count_members(ids.drop_last(), members) + if members.contains(ids.last()) { 1nat } else { 0nat }
    }
}

} // verus!
