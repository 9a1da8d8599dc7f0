//! Subnet assignment: `subnet(v, e) = H(id || R_macro) mod K_e`.
use vstd::prelude::*;
use crate::crypto::{blake3_with_dst, digest_with_dst, Dst};
use crate::macro_fin::aggregation::Ke;
use crate::types::crypto_types::Hash32;
use crate::types::primitives::ValidatorId;

verus! {

/// Deterministic subnet assignment for a validator in one macro window.
#[derive(Clone, Copy, Debug, PartialEq, Eq)]
pub struct SubnetAssign {
    /// Number of subnets.
    pub k_e: Ke,
    /// Beacon output for the macro window.
    pub r_macro: Hash32,
}

/// Big-endian value of the first four bytes.
pub open spec fn be4(s: Seq<u8>) -> nat {
    (s[0] as nat) * 16777216 + (s[1] as nat) * 65536 + (s[2] as nat) * 256 + (s[3] as nat)
}

impl SubnetAssign {
    /// Subnet of `v`: the first four digest bytes, big-endian, modulo `max(K_e, 1)`.
    pub open spec fn spec_index_for(&self, v: ValidatorId) -> nat {
        let d = digest_with_dst(Dst::SubnetAssign, v.0@ + self.r_macro.0@);
        let k: nat = if self.k_e.0 == 0 { 1 } else { self.k_e.0 as nat };
        be4(d) % k
    }

    /// Subnet index in `0..max(K_e, 1)`.
    pub fn index_for(&self, validator: &ValidatorId) -> (r: u32)
        ensures
            r as nat == self.spec_index_for(*validator),
            r < (if self.k_e.0 == 0 { 1 } else { self.k_e.0 }),
    {
        let mut buf: Vec<u8> = Vec::new();
        crate::codec::push_32(&mut buf, &validator.0);
        crate::codec::push_32(&mut buf, &self.r_macro.0);
        let h = blake3_with_dst(Dst::SubnetAssign, buf.as_slice());
        let n: u32 = (h.0[0] as u32) * 16777216 + (h.0[1] as u32) * 65536 + (h.0[2] as u32) * 256 + (h.0[3] as u32);
        let k: u32 = if self.k_e.0 == 0 { 1 } else { self.k_e.0 };
        n % k
    }
}

} // verus!
