//! Macro proposer scheduling (primary + backup). Every macro handler draws
//! its schedule from `round_robin`: it depends on the epoch-0 set and the
//! height only, not on the beacon or on validator reputation.
use vstd::prelude::*;
use crate::codec::{push_32, push_le, u64_le};
use crate::types::crypto_types::Hash32;
use crate::types::primitives::{Height, ValidatorId};
use crate::types::validator::ValidatorSet;

verus! {

/// Primary and backup proposer for one macro height.
#[derive(Clone, Copy, Debug, PartialEq, Eq)]
pub struct ProposerSchedule {
    /// Macro window height.
    pub height: Height,
    /// Primary proposer.
    pub primary: ValidatorId,
    /// Backup proposer (takes over after `T_macropropose`).
    pub backup: ValidatorId,
}

/// Round-robin schedule: primary `entries[h mod n]`, backup `entries[(h+1) mod n]`
/// (with `h + 1` wrapping at `2^64`).
pub open spec fn spec_round_robin(set: ValidatorSet, height: Height) -> ProposerSchedule {
    let n = set.entries@.len() as int;
    let next = if height.0 == u64::MAX { 0 } else { height.0 + 1 };
    ProposerSchedule {
        height,
        primary: set.entries@[height.0 as int % n].id,
        backup: set.entries@[next % n].id,
    }
}

impl ProposerSchedule {
    /// Round-robin by height.
    pub fn round_robin(set: &ValidatorSet, height: Height) -> (s: Self)
        requires
            set.entries@.len() > 0,
        ensures
            s == spec_round_robin(*set, height),
    {
        let n = set.entries.len() as u64;
        let primary_idx = (height.0 % n) as usize;
        let next = height.0.wrapping_add(1);
        let backup_idx = (next % n) as usize;
        ProposerSchedule {
            height,
            primary: set.entries[primary_idx].id,
            backup: set.entries[backup_idx].id,
        }
    }
}

/// VRF input of a proposer slot: `beacon || height || proposer`, the height little-endian.
pub open spec fn spec_vrf_alpha(beacon: Hash32, height: Height, proposer: ValidatorId) -> Seq<u8> {
    beacon.0@ + u64_le(height.0) + proposer.0@
}

/// VRF input of a proposer slot.
pub fn vrf_alpha(beacon: &Hash32, height: Height, proposer: &ValidatorId) -> (r: Vec<u8>)
    ensures
        r@ == spec_vrf_alpha(*beacon, height, *proposer),
{
    let mut r: Vec<u8> = Vec::new();
    push_32(&mut r, &beacon.0);
    push_le(&mut r, height.0, 8);
    push_32(&mut r, &proposer.0);
    r
}

/// The backup at height `h` is the primary at height `h + 1`.
pub proof fn lemma_backup_is_next_primary(set: ValidatorSet, h: Height)
    requires
        set.entries@.len() > 0,
        h.0 < u64::MAX,
    ensures
        spec_round_robin(set, h).backup == spec_round_robin(set, Height((h.0 + 1) as u64)).primary,
{
}

/// The schedule repeats every `n` heights.
pub proof fn lemma_round_robin_periodic(set: ValidatorSet, h: Height)
    requires
        set.entries@.len() > 0,
        h.0 + set.entries@.len() <= u64::MAX,
    ensures
        spec_round_robin(set, h).primary == spec_round_robin(set, Height((h.0 + set.entries@.len()) as u64)).primary,
{
    let n = set.entries@.len() as int;
    assert((h.0 + n) % n == h.0 as int % n) by (nonlinear_arith)
        requires n > 0, h.0 >= 0;
}

} // verus!
