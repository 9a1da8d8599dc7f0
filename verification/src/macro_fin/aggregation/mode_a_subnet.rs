//! Mode A subnet aggregation.
use vstd::prelude::*;
use crate::bitmap::{spec_bit, test_bit};
use crate::event::{SubnetAggregate, SubnetId};
use crate::macro_fin::aggregation::{agg_outcome, aggregate_marked};
use crate::macro_fin::aggregation::subnet::SubnetAssign;
use crate::signers::{member_bits, quorum, quorum_threshold, signer_bits};
use crate::table::{KeySet, Table};
use crate::types::crypto_types::{BlsSig, Hash32};
use crate::types::primitives::ValidatorId;
use crate::types::validator::ValidatorSet;

verus! {

/// Mode A aggregator helpers.
#[derive(Debug, PartialEq, Eq, Structural)]
pub struct ModeASubnet;

impl Default for ModeASubnet {
    fn default() -> (r: Self)
        ensures
            r == ModeASubnet,
    {
        ModeASubnet
    }
}

/// Number of entries of `ids` assigned to `subnet`.
pub open spec fn subnet_size(assign: SubnetAssign, ids: Seq<ValidatorId>, subnet: SubnetId) -> nat
    decreases ids.len(),
{
    if ids.len() == 0 {
        0
    } else {
        subnet_size(assign, ids.drop_last(), subnet)
            + if assign.spec_index_for(ids.last()) == subnet.0 as nat { 1nat } else { 0nat }
    }
}

/// Outcome of building a subnet aggregate: `None` for an empty subnet or
/// fewer signers than the subnet quorum, else the aggregate over the signers.
pub open spec fn spec_subnet_outcome(
    target: Hash32,
    subnet: SubnetId,
    signers: Set<ValidatorId>,
    n_signers: nat,
    set: ValidatorSet,
    assign: SubnetAssign,
    sigs: Map<(Hash32, ValidatorId), BlsSig>,
) -> Option<(Seq<u8>, Seq<u8>)> {
    let n = subnet_size(assign, set.ids(), subnet);
    if n == 0 || n_signers < quorum(n) {
        None
    } else {
        agg_outcome(target, member_bits(set.ids(), signers), sigs, set)
    }
}

/// Entry `i` of the set is marked in some aggregate's bitmap.
pub open spec fn union_bits(aggs: Seq<SubnetAggregate>, n: nat) -> Seq<bool> {
    Seq::new(n, |i: int| exists|k: int| 0 <= k < aggs.len() && spec_bit(#[trigger] aggs[k].agg.bitmap@, i))
}

/// Number of `true`s.
pub open spec fn count_true(bits: Seq<bool>) -> nat
    decreases bits.len(),
{
    if bits.len() == 0 {
        0
    } else {
        count_true(bits.drop_last()) + if bits.last() { 1nat } else { 0nat }
    }
}

/// Outcome of the Mode A union: `None` for an empty set or when the union of
/// the subnet bitmaps marks fewer than `2f + 1` entries, else the aggregate
/// over the marked entries.
pub open spec fn spec_mode_a_outcome(
    target: Hash32,
    aggs: Seq<SubnetAggregate>,
    sigs: Map<(Hash32, ValidatorId), BlsSig>,
    set: ValidatorSet,
) -> Option<(Seq<u8>, Seq<u8>)> {
    let n = set.entries@.len();
    let bits = union_bits(aggs, n);
    if n == 0 || count_true(bits) < quorum(n) {
        None
    } else {
        agg_outcome(target, bits, sigs, set)
    }
}

fn subnet_count(set: &ValidatorSet, assign: &SubnetAssign, subnet: SubnetId) -> (r: usize)
    ensures
        r == subnet_size(*assign, set.ids(), subnet),
{
    let mut c: usize = 0;
    let mut i: usize = 0;
    while i < set.entries.len()
        invariant
            0 <= i <= set.entries.len(),
            c <= i,
            c == subnet_size(*assign, set.ids().subrange(0, i as int), subnet),
        decreases set.entries.len() - i,
    {
        assert(set.ids().subrange(0, i + 1).drop_last() =~= set.ids().subrange(0, i as int));
        if assign.index_for(&set.entries[i].id) == subnet.0 {
            c = c + 1;
        }
        i = i + 1;
    }
    assert(set.ids().subrange(0, set.entries@.len() as int) =~= set.ids());
    c
}

impl ModeASubnet {
    /// Subnet aggregate once `signers` reaches the subnet-local `2f + 1`.
    pub fn try_build_aggregate(
        target: Hash32,
        subnet: SubnetId,
        signers: &KeySet<ValidatorId>,
        set: &ValidatorSet,
        assign: &SubnetAssign,
        partial_sigs: &Table<(Hash32, ValidatorId), BlsSig>,
    ) -> (r: Option<SubnetAggregate>)
        requires
            signers.wf(),
            partial_sigs.wf(),
        ensures
            match r {
                Some(a) => a.subnet == subnet && a.checkpoint_hash == target
                    && spec_subnet_outcome(target, subnet, signers@, signers.elems().len(), *set, *assign, partial_sigs@)
                        == Some((a.agg.sig.0@, a.agg.bitmap@)),
                None => spec_subnet_outcome(target, subnet, signers@, signers.elems().len(), *set, *assign, partial_sigs@) is None,
            },
    {
        let n = subnet_count(set, assign, subnet);
        if n == 0 {
            return None;
        }
        let need = quorum_threshold(n);
        if signers.len() < need {
            return None;
        }
        let bits = signer_bits(set, signers);
        let agg = aggregate_marked(target, &bits, partial_sigs, set)?;
        Some(SubnetAggregate { subnet, checkpoint_hash: target, agg })
    }

    /// The lowest `ValidatorId` assigned to `subnet` acts as its aggregator.
    pub fn aggregator_for(subnet: SubnetId, set: &ValidatorSet, assign: &SubnetAssign) -> (r: Option<ValidatorId>)
        ensures
            match r {
                Some(id) => (exists|i: int| 0 <= i < set.entries@.len() && set.entries@[i].id == id
                        && assign.spec_index_for(set.entries@[i].id) == subnet.0 as nat)
                    && forall|i: int| 0 <= i < set.entries@.len()
                        && assign.spec_index_for(#[trigger] set.entries@[i].id) == subnet.0 as nat
                        ==> !crate::bytes::lex_lt(set.entries@[i].id.0@, id.0@),
                None => forall|i: int| 0 <= i < set.entries@.len()
                    ==> assign.spec_index_for(#[trigger] set.entries@[i].id) != subnet.0 as nat,
            },
    {
        let mut best: Option<ValidatorId> = None;
        let mut i: usize = 0;
        while i < set.entries.len()
            invariant
                0 <= i <= set.entries.len(),
                match best {
                    Some(id) => (exists|k: int| 0 <= k < i && set.entries@[k].id == id
                            && assign.spec_index_for(set.entries@[k].id) == subnet.0 as nat)
                        && forall|k: int| 0 <= k < i
                            && assign.spec_index_for(#[trigger] set.entries@[k].id) == subnet.0 as nat
                            ==> !crate::bytes::lex_lt(set.entries@[k].id.0@, id.0@),
                    None => forall|k: int| 0 <= k < i
                        ==> assign.spec_index_for(#[trigger] set.entries@[k].id) != subnet.0 as nat,
                },
            decreases set.entries.len() - i,
        {
            let id = set.entries[i].id;
            if assign.index_for(&id) == subnet.0 {
                match best {
                    Some(b) => {
                        if id.less(&b) {
                            proof {
                                assert forall|k: int| 0 <= k <= i
                                    && assign.spec_index_for(#[trigger] set.entries@[k].id) == subnet.0 as nat
                                    implies !crate::bytes::lex_lt(set.entries@[k].id.0@, id.0@) by {
                                    if k < i {
                                        crate::bytes::lemma_lex_lt_trans_not(set.entries@[k].id.0@, id.0@, b.0@);
                                    } else {
                                        crate::bytes::lemma_lex_lt_irrefl(id.0@);
                                    }
                                }
                            }
                            best = Some(id);
                        } else {
                            proof {
                                assert forall|k: int| 0 <= k <= i
                                    && assign.spec_index_for(#[trigger] set.entries@[k].id) == subnet.0 as nat
                                    implies !crate::bytes::lex_lt(set.entries@[k].id.0@, b.0@) by {}
                            }
                        }
                    },
                    None => {
                        proof {
                            crate::bytes::lemma_lex_lt_irrefl(id.0@);
                        }
                        best = Some(id);
                    },
                }
            }
            i = i + 1;
        }
        best
    }
}

/// Union the subnet aggregates for `target` into a `MacroQc` aggregate once
/// they cover `2f + 1` entries of the set.
pub fn try_finalize_mode_a(
    target: Hash32,
    aggs: &Vec<SubnetAggregate>,
    set: &ValidatorSet,
    partial_sigs: &Table<(Hash32, ValidatorId), BlsSig>,
) -> (r: Option<crate::types::macros::MacroQc>)
    requires
        partial_sigs.wf(),
    ensures
        match r {
            Some(qc) => qc.checkpoint_hash == target && qc.mode == crate::types::macros::AggregationMode::ModeASubnet
                && spec_mode_a_outcome(target, aggs@, partial_sigs@, *set) == Some((qc.agg.sig.0@, qc.agg.bitmap@)),
            None => spec_mode_a_outcome(target, aggs@, partial_sigs@, *set) is None,
        },
{
    let n = set.entries.len();
    if n == 0 {
        return None;
    }
    let need = quorum_threshold(n);
    let mut bits: Vec<bool> = Vec::new();
    let mut count: usize = 0;
    let mut i: usize = 0;
    while i < n
        invariant
            n == set.entries@.len(),
            0 <= i <= n,
            bits@ == union_bits(aggs@, n as nat).subrange(0, i as int),
            count == count_true(bits@),
            count <= i,
        decreases n - i,
    {
        let mut hit = false;
        let mut k: usize = 0;
        while k < aggs.len()
            invariant
                0 <= k <= aggs.len(),
                hit == exists|t: int| 0 <= t < k && spec_bit(#[trigger] aggs@[t].agg.bitmap@, i as int),
            decreases aggs.len() - k,
        {
            if test_bit(&aggs[k].agg.bitmap, i) {
                hit = true;
            }
            k = k + 1;
        }
        let ghost before = bits@;
        bits.push(hit);
        assert(bits@.drop_last() =~= before);
        if hit {
            count = count + 1;
        }
        i = i + 1;
        assert(bits@ =~= union_bits(aggs@, n as nat).subrange(0, i as int));
    }
    assert(union_bits(aggs@, n as nat).subrange(0, n as int) =~= union_bits(aggs@, n as nat));
    if count < need {
        return None;
    }
    let agg = aggregate_marked(target, &bits, partial_sigs, set)?;
    Some(crate::types::macros::MacroQc {
        checkpoint_hash: target,
        mode: crate::types::macros::AggregationMode::ModeASubnet,
        agg,
    })
}

} // verus!
