//! Canonical byte encodings signed and verified at L3.
use vstd::prelude::*;
use crate::codec::{push_32, push_le, u64_le};
use crate::macro_fin::vote_book::VoteRecord;
use crate::types::crypto_types::Hash32;
use crate::types::macros::MacroCheckpoint;
use crate::types::primitives::ValidatorId;

verus! {

/// `validator_id || checkpoint_hash`.
pub open spec fn spec_partial_message(validator: ValidatorId, checkpoint_hash: Hash32) -> Seq<u8> {
    validator.0@ + checkpoint_hash.0@
}

/// `height || epoch || parent || micro_root || hash`, integers little-endian.
pub open spec fn spec_checkpoint_message(cp: MacroCheckpoint) -> Seq<u8> {
    u64_le(cp.height.0) + u64_le(cp.epoch.0) + cp.parent.0@ + cp.micro_root.0@ + cp.hash.0@
}

/// `source || target || checkpoint`, integers little-endian.
pub open spec fn spec_vote_message(record: VoteRecord) -> Seq<u8> {
    u64_le(record.source.0) + u64_le(record.target.0) + record.checkpoint.0@
}

/// Partial signature message: `validator_id || checkpoint_hash`.
pub fn partial_message(validator: &ValidatorId, checkpoint_hash: &Hash32) -> (m: Vec<u8>)
    ensures
        m@ == spec_partial_message(*validator, *checkpoint_hash),
{
    let mut m: Vec<u8> = Vec::new();
    push_32(&mut m, &validator.0);
    push_32(&mut m, &checkpoint_hash.0);
    m
}

/// Macro proposer signature message: `proposer || checkpoint.hash`.
pub fn proposer_message(proposer: &ValidatorId, checkpoint: &MacroCheckpoint) -> (m: Vec<u8>)
    ensures
        m@ == spec_partial_message(*proposer, checkpoint.hash),
{
    partial_message(proposer, &checkpoint.hash)
}

/// Macro QC body: the canonical encoding of the checkpoint.
pub fn checkpoint_message(cp: &MacroCheckpoint) -> (m: Vec<u8>)
    ensures
        m@ == spec_checkpoint_message(*cp),
{
    let mut m: Vec<u8> = Vec::new();
    push_le(&mut m, cp.height.0, 8);
    push_le(&mut m, cp.epoch.0, 8);
    push_32(&mut m, &cp.parent.0);
    push_32(&mut m, &cp.micro_root.0);
    push_32(&mut m, &cp.hash.0);
    m
}

/// Macro vote signing payload (Casper-FFG fields only).
pub fn vote_message(record: &VoteRecord) -> (m: Vec<u8>)
    ensures
        m@ == spec_vote_message(*record),
{
    let mut m: Vec<u8> = Vec::new();
    push_le(&mut m, record.source.0, 8);
    push_le(&mut m, record.target.0, 8);
    push_32(&mut m, &record.checkpoint.0);
    m
}

} // verus!
