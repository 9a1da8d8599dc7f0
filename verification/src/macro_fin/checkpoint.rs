//! Build canonical `MacroCheckpoint`s.
use vstd::prelude::*;
use crate::codec::{push_32, push_le, u64_le};
use crate::crypto::{blake3_with_dst, digest_with_dst, Dst};
use crate::types::crypto_types::Hash32;
use crate::types::macros::MacroCheckpoint;
use crate::types::primitives::{Epoch, Height};

verus! {

/// Stateless handle; checkpoints are made by [`build`].
#[derive(Debug, PartialEq, Eq, Structural)]
pub struct CheckpointBuilder;

impl CheckpointBuilder {
    /// The (stateless) handle.
    pub fn placeholder() -> (r: Self)
        ensures
            r == CheckpointBuilder,
    {
        CheckpointBuilder
    }
}

impl Default for CheckpointBuilder {
    fn default() -> (r: Self)
        ensures
            r == CheckpointBuilder,
    {
        CheckpointBuilder
    }
}

/// The canonical checkpoint hash of the four unhashed fields.
pub open spec fn spec_checkpoint_hash(height: Height, epoch: Epoch, parent: Hash32, micro_root: Hash32) -> Seq<u8> {
    digest_with_dst(Dst::MacroCheckpoint, u64_le(height.0) + u64_le(epoch.0) + parent.0@ + micro_root.0@)
}

/// Build a `MacroCheckpoint` whose `hash` is the canonical hash of the other fields.
pub fn build(height: Height, epoch: Epoch, parent: Hash32, micro_root: Hash32) -> (cp: MacroCheckpoint)
    ensures
        cp.height == height,
        cp.epoch == epoch,
        cp.parent == parent,
        cp.micro_root == micro_root,
        cp.hash.0@ == spec_checkpoint_hash(height, epoch, parent, micro_root),
{
    let mut pre: Vec<u8> = Vec::new();
    push_le(&mut pre, height.0, 8);
    push_le(&mut pre, epoch.0, 8);
    push_32(&mut pre, &parent.0);
    push_32(&mut pre, &micro_root.0);
    let hash = blake3_with_dst(Dst::MacroCheckpoint, pre.as_slice());
    MacroCheckpoint { height, epoch, parent, micro_root, hash }
}

/// Equal inputs give equal checkpoints, hash included.
pub proof fn lemma_build_deterministic(a: MacroCheckpoint, b: MacroCheckpoint)
    requires
        a.height == b.height,
        a.epoch == b.epoch,
        a.parent == b.parent,
        a.micro_root == b.micro_root,
        a.hash.0@ == spec_checkpoint_hash(a.height, a.epoch, a.parent, a.micro_root),
        b.hash.0@ == spec_checkpoint_hash(b.height, b.epoch, b.parent, b.micro_root),
    ensures
        a == b,
{
    assert(a.hash.0 =~= b.hash.0);
}

} // verus!
