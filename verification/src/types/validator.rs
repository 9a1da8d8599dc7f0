//! Validator sets.
use vstd::prelude::*;
use crate::types::crypto_types::{BlsPubkey, VrfPubkey};
use crate::types::primitives::{Epoch, StakeWeight, ValidatorId};

verus! {

/// Operator diversity metadata (informational only).
#[derive(Clone, Debug, PartialEq, Eq)]
pub struct ValidatorIdentity {
    /// Autonomous system number.
    pub asn: Option<u32>,
    /// Cloud provider label.
    pub cloud: Option<String>,
    /// Region label.
    pub region: Option<String>,
}

/// One member of the active set.
#[derive(Clone, Debug, PartialEq, Eq)]
pub struct ValidatorEntry {
    /// Identity.
    pub id: ValidatorId,
    /// BLS public key.
    pub bls_pubkey: BlsPubkey,
    /// VRF public key (all zero = none registered).
    pub vrf_pubkey: VrfPubkey,
    /// Stake.
    pub stake: StakeWeight,
    /// Diversity metadata.
    pub identity: ValidatorIdentity,
}

/// The active validator set of an epoch, in canonical order.
#[derive(Clone, Debug, PartialEq, Eq)]
pub struct ValidatorSet {
    /// Epoch the set is valid for.
    pub epoch: Epoch,
    /// Members in canonical order.
    pub entries: Vec<ValidatorEntry>,
    /// Sum of member stakes.
    pub total_stake: StakeWeight,
}

impl ValidatorSet {
    /// Identifiers of the members, in canonical order.
    pub open spec fn ids(&self) -> Seq<ValidatorId> {
        self.entries@.map_values(|e: ValidatorEntry| e.id)
    }
}

/// The first position at which `id` occurs in `ids`, if any.
pub open spec fn first_index_of(ids: Seq<ValidatorId>, id: ValidatorId) -> Option<int> {
    if exists|i: int| 0 <= i < ids.len() && ids[i] == id {
        Some(choose|i: int| 0 <= i < ids.len() && ids[i] == id && (forall|j: int| 0 <= j < i ==> ids[j] != id))
    } else {
        None
    }
}

/// The first index found is the one `first_index_of` names.
pub proof fn lemma_first_index(ids: Seq<ValidatorId>, id: ValidatorId, i: int)
    requires
        0 <= i < ids.len(),
        ids[i] == id,
        forall|j: int| 0 <= j < i ==> ids[j] != id,
    ensures
        first_index_of(ids, id) == Some(i),
{
    let k = choose|k: int| 0 <= k < ids.len() && ids[k] == id && (forall|j: int| 0 <= j < k ==> ids[j] != id);
    if k < i {
        assert(ids[k] != id);
    }
    if i < k {
        assert(ids[i] != id);
    }
}

/// Position of `id` in the set, scanning in canonical order.
pub fn index_in_set(set: &ValidatorSet, id: &ValidatorId) -> (r: Option<usize>)
    ensures
        match r {
            Some(i) => i < set.entries.len() && set.entries@[i as int].id == *id
                && forall|j: int| 0 <= j < i ==> set.entries@[j].id != *id,
            None => forall|j: int| 0 <= j < set.entries.len() ==> set.entries@[j].id != *id,
        },
        match r {
            Some(i) => first_index_of(set.ids(), *id) == Some(i as int),
            None => first_index_of(set.ids(), *id) is None,
        },
{
    let mut i: usize = 0;
    while i < set.entries.len()
        invariant
            0 <= i <= set.entries.len(),
            forall|j: int| 0 <= j < i ==> set.entries@[j].id != *id,
        decreases set.entries.len() - i,
    {
        if set.entries[i].id.same(id) {
            proof {
                lemma_first_index(set.ids(), *id, i as int);
            }
            return Some(i);
        }
        i = i + 1;
    }
    assert(first_index_of(set.ids(), *id) is None) by {
        if exists|i: int| 0 <= i < set.ids().len() && set.ids()[i] == *id {
            let k = choose|i: int| 0 <= i < set.ids().len() && set.ids()[i] == *id;
            assert(set.entries@[k].id == *id);
        }
    }
    None
}

} // verus!
