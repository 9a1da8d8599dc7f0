//! Anchor selection inputs: the per-validator sortition value of a wave.
use vstd::prelude::*;
use crate::bullshark::wave::WaveId;
use crate::codec::{push_32, push_le, u64_le};
use crate::crypto::{blake3_with_dst, digest_with_dst, Dst};
use crate::types::crypto_types::Hash32;
use crate::types::primitives::ValidatorId;

verus! {

/// Outcome of anchor selection for one wave.
#[derive(Clone, Copy, Debug, PartialEq, Eq)]
pub struct AnchorChoice {
    /// Wave this anchor belongs to.
    pub wave: WaveId,
    /// Author who won the anchor slot.
    pub author: ValidatorId,
    /// Hash of the anchor vertex (all zero until the vertex is observed).
    pub anchor_hash: Hash32,
}

/// Eight-byte big-endian encoding.
pub open spec fn u64_be(x: u64) -> Seq<u8> {
    u64_le(x).reverse()
}

/// Sortition value of `validator` in `wave`: the beacon-tagged digest of
/// `beacon || wave (big-endian) || validator`.
pub open spec fn spec_sortition_beta(beacon: Hash32, wave: WaveId, validator: ValidatorId) -> Seq<u8> {
    digest_with_dst(Dst::Beacon, beacon.0@ + u64_be(wave.0) + validator.0@)
}

/// Publicly derivable sortition value of `validator` in `wave`.
pub fn sortition_beta(beacon: &Hash32, wave: WaveId, validator: &ValidatorId) -> (r: Hash32)
    ensures
        r.0@ == spec_sortition_beta(*beacon, wave, *validator),
{
    let mut le: Vec<u8> = Vec::new();
    push_le(&mut le, wave.0, 8);
    proof {
        crate::codec::lemma_le_bytes_len(wave.0 as nat, 8);
    }
    let mut buf: Vec<u8> = Vec::new();
    push_32(&mut buf, &beacon.0);
    let ghost head = buf@;
    let mut i: usize = 0;
    while i < 8
        invariant
            0 <= i <= 8,
            le@ == u64_le(wave.0),
            le@.len() == 8,
            buf@ == head + u64_le(wave.0).reverse().subrange(0, i as int),
        decreases 8 - i,
    {
        buf.push(le[7 - i]);
        i = i + 1;
        assert(buf@ =~= head + u64_le(wave.0).reverse().subrange(0, i as int));
    }
    assert(u64_le(wave.0).reverse().subrange(0, 8) =~= u64_le(wave.0).reverse());
    push_32(&mut buf, &validator.0);
    blake3_with_dst(Dst::Beacon, buf.as_slice())
}

} // verus!
