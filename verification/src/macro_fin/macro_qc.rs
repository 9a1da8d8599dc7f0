//! Flat (Mode 0) and leaderless (Mode B) MacroQc assembly.
use vstd::prelude::*;
use crate::event::SubnetAggregate;
use crate::macro_fin::aggregation::{agg_outcome, aggregate_marked};
use crate::macro_fin::aggregation::mode_a_subnet::{spec_mode_a_outcome, try_finalize_mode_a};
use crate::signers::{member_bits, quorum, quorum_threshold, signer_bits};
use crate::table::{KeySet, Table};
use crate::types::crypto_types::{BlsAggSig, BlsSig, Hash32};
use crate::types::macros::{AggregationMode, MacroCheckpoint, MacroQc};
use crate::types::primitives::ValidatorId;
use crate::types::validator::ValidatorSet;

verus! {

/// Stateless handle for macro QC assembly.
#[derive(Debug, PartialEq, Eq, Structural)]
pub struct MacroQcAssembler;

impl MacroQcAssembler {
    /// The (stateless) handle.
    pub fn placeholder() -> (r: Self)
        ensures
            r == MacroQcAssembler,
    {
        MacroQcAssembler
    }
}

/// The aggregate signature bytes and bitmap of a flat QC over `signers`, or
/// `None` below quorum, when a signer's partial is missing, or when `blst`
/// refuses to aggregate.
pub open spec fn flat_outcome(
    target: Hash32,
    signers: Set<ValidatorId>,
    n_signers: nat,
    sigs: Map<(Hash32, ValidatorId), BlsSig>,
    set: ValidatorSet,
) -> Option<(Seq<u8>, Seq<u8>)> {
    let n = set.entries@.len();
    if n == 0 || n_signers < quorum(n) {
        None
    } else {
        agg_outcome(target, member_bits(set.ids(), signers), sigs, set)
    }
}

/// A QC over `target` in `mode` matching the outcome.
pub open spec fn qc_matches(qc: MacroQc, target: Hash32, mode: AggregationMode, outcome: Option<(Seq<u8>, Seq<u8>)>) -> bool {
    &&& qc.checkpoint_hash == target
    &&& qc.mode == mode
    &&& outcome == Some((qc.agg.sig.0@, qc.agg.bitmap@))
}

fn flat_aggregate(
    target: Hash32,
    signers: &KeySet<ValidatorId>,
    partial_sigs: &Table<(Hash32, ValidatorId), BlsSig>,
    set: &ValidatorSet,
) -> (r: Option<BlsAggSig>)
    requires
        signers.wf(),
        partial_sigs.wf(),
    ensures
        match r {
            Some(agg) => flat_outcome(target, signers@, signers.elems().len(), partial_sigs@, *set)
                == Some((agg.sig.0@, agg.bitmap@)),
            None => flat_outcome(target, signers@, signers.elems().len(), partial_sigs@, *set) is None,
        },
{
    let n = set.entries.len();
    if n == 0 {
        return None;
    }
    let need = quorum_threshold(n);
    if signers.len() < need {
        return None;
    }
    let bits = signer_bits(set, signers);
    aggregate_marked(target, &bits, partial_sigs, set)
}

/// `MacroQc` in Mode 0 once the signer set reaches the quorum `2f + 1` of the set.
pub fn try_finalize_mode0(
    target: Hash32,
    signers: &KeySet<ValidatorId>,
    partial_sigs: &Table<(Hash32, ValidatorId), BlsSig>,
    set: &ValidatorSet,
    checkpoint: &MacroCheckpoint,
) -> (r: Option<MacroQc>)
    requires
        signers.wf(),
        partial_sigs.wf(),
    ensures
        match r {
            Some(qc) => qc_matches(qc, target, AggregationMode::Mode0Flat,
                flat_outcome(target, signers@, signers.elems().len(), partial_sigs@, *set)),
            None => flat_outcome(target, signers@, signers.elems().len(), partial_sigs@, *set) is None,
        },
{
    let agg = flat_aggregate(target, signers, partial_sigs, set)?;
    Some(MacroQc { checkpoint_hash: target, mode: AggregationMode::Mode0Flat, agg })
}

/// `MacroQc` in Mode B: the Mode 0 construction, labelled leaderless.
pub fn try_finalize_mode_b(
    target: Hash32,
    signers: &KeySet<ValidatorId>,
    partial_sigs: &Table<(Hash32, ValidatorId), BlsSig>,
    set: &ValidatorSet,
    checkpoint: &MacroCheckpoint,
) -> (r: Option<MacroQc>)
    requires
        signers.wf(),
        partial_sigs.wf(),
    ensures
        match r {
            Some(qc) => qc_matches(qc, target, AggregationMode::ModeBLeaderless,
                flat_outcome(target, signers@, signers.elems().len(), partial_sigs@, *set)),
            None => flat_outcome(target, signers@, signers.elems().len(), partial_sigs@, *set) is None,
        },
{
    let qc = try_finalize_mode0(target, signers, partial_sigs, set, checkpoint)?;
    Some(MacroQc { mode: AggregationMode::ModeBLeaderless, ..qc })
}

/// `MacroQc` in Mode A from the subnet aggregates received for `target`.
pub fn try_finalize_mode_a_from_aggs(
    target: Hash32,
    aggs: &Vec<SubnetAggregate>,
    set: &ValidatorSet,
    partial_sigs: &Table<(Hash32, ValidatorId), BlsSig>,
) -> (r: Option<MacroQc>)
    requires
        partial_sigs.wf(),
    ensures
        match r {
            Some(qc) => qc_matches(qc, target, AggregationMode::ModeASubnet,
                spec_mode_a_outcome(target, aggs@, partial_sigs@, *set)),
            None => spec_mode_a_outcome(target, aggs@, partial_sigs@, *set) is None,
        },
{
    try_finalize_mode_a(target, aggs, set, partial_sigs)
}

} // verus!
