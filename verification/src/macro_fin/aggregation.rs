//! Adaptive aggregation (Mode 0, A, B).
pub mod mode_a_subnet;
pub mod mode_b_leaderless;
pub mod subnet;

pub use crate::macro_fin::aggregation::mode_a_subnet::ModeASubnet;
pub use crate::macro_fin::aggregation::mode_b_leaderless::ModeBLeaderless;
pub use crate::macro_fin::aggregation::subnet::SubnetAssign;
pub use crate::types::macros::AggregationMode;

use vstd::prelude::*;
use crate::bitmap::{build_bitmap, encode_bits};
use crate::config::Config;
use crate::crypto::{bls_aggregate, bls_aggregate_sigs, sig_bytes};
use crate::signers::{chosen_sigs, collect_sigs};
use crate::table::Table;
use crate::types::crypto_types::{BlsAggSig, BlsSig, Hash32};
use crate::types::primitives::ValidatorId;
use crate::types::validator::ValidatorSet;

verus! {

/// Number of subnets `K_e` for Mode A.
#[derive(Clone, Copy, Debug, PartialEq, Eq, Structural)]
pub struct Ke(pub u32);

/// No subnets below the flat threshold, else one subnet per
/// 128 validators (rounded up) and at most 32; a dev override wins.
pub open spec fn spec_ke(cfg: Config, n_e: u32) -> u32 {
    match cfg.aggregation.sim_force_ke {
        Some(k) => k,
        None => if n_e < cfg.aggregation.subnet_flat_threshold {
            0
        } else {
            let c = (n_e as int + 127) / 128;
            if c < 32 { c as u32 } else { 32 }
        },
    }
}

/// Subnet count from the active validator count `n_e`.
pub fn compute_ke(cfg: &Config, n_e: u32) -> (k: Ke)
    ensures
        k.0 == spec_ke(*cfg, n_e),
{
    if let Some(k) = cfg.aggregation.sim_force_ke {
        return Ke(k);
    }
    if n_e < cfg.aggregation.subnet_flat_threshold {
        return Ke(0);
    }
    let c: u32 = n_e / 128 + if n_e % 128 == 0 { 0 } else { 1 };
    Ke(if c < 32 { c } else { 32 })
}

/// Mode A is active when `K_e >= 4`.
pub fn mode_a_active(ke: Ke) -> (r: bool)
    ensures
        r == (ke.0 >= 4),
{
    ke.0 >= 4
}

/// Threshold-based mode before any runtime Mode B override.
pub open spec fn spec_select_mode(cfg: Config, n_e: u32) -> AggregationMode {
    if spec_ke(cfg, n_e) >= 4 {
        AggregationMode::ModeASubnet
    } else {
        AggregationMode::Mode0Flat
    }
}

/// Threshold-based mode before any runtime Mode B override.
pub fn select_mode(cfg: &Config, n_e: u32) -> (m: AggregationMode)
    ensures
        m == spec_select_mode(*cfg, n_e),
{
    let ke = compute_ke(cfg, n_e);
    if mode_a_active(ke) {
        AggregationMode::ModeASubnet
    } else {
        AggregationMode::Mode0Flat
    }
}

/// Aggregate signature bytes and bitmap over the entries whose bit is set,
/// or `None` when a partial is missing or `blst` refuses to aggregate.
pub open spec fn agg_outcome(
    target: Hash32,
    bits: Seq<bool>,
    sigs: Map<(Hash32, ValidatorId), BlsSig>,
    set: ValidatorSet,
) -> Option<(Seq<u8>, Seq<u8>)> {
    match chosen_sigs(set.ids(), bits, sigs, target) {
        None => None,
        Some(ss) => match bls_aggregate(sig_bytes(ss)) {
            None => None,
            Some(agg) => Some((agg, encode_bits(bits))),
        },
    }
}

/// Aggregate the stored partials on `target` of the entries whose bit is set.
pub fn aggregate_marked(
    target: Hash32,
    bits: &Vec<bool>,
    partial_sigs: &Table<(Hash32, ValidatorId), BlsSig>,
    set: &ValidatorSet,
) -> (r: Option<BlsAggSig>)
    requires
        partial_sigs.wf(),
    ensures
        match r {
            Some(agg) => agg_outcome(target, bits@, partial_sigs@, *set) == Some((agg.sig.0@, agg.bitmap@)),
            None => agg_outcome(target, bits@, partial_sigs@, *set) is None,
        },
{
    let sigs = collect_sigs(set, bits, partial_sigs, target)?;
    let agg = bls_aggregate_sigs(&sigs)?;
    let bitmap = build_bitmap(bits);
    Some(BlsAggSig { sig: agg, bitmap })
}

/// The subnet count never exceeds 32 unless a dev override sets it.
pub proof fn lemma_ke_capped(cfg: Config, n_e: u32)
    requires
        cfg.aggregation.sim_force_ke is None,
    ensures
        spec_ke(cfg, n_e) <= 32,
        n_e < cfg.aggregation.subnet_flat_threshold ==> spec_ke(cfg, n_e) == 0,
{
}

/// Without an override, the subnet count grows with the validator count.
pub proof fn lemma_ke_monotone(cfg: Config, a: u32, b: u32)
    requires
        cfg.aggregation.sim_force_ke is None,
        a <= b,
    ensures
        spec_ke(cfg, a) <= spec_ke(cfg, b),
{
}

} // verus!
