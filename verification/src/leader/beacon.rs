//! Beacon chaining: `R_w = H(R_{w-1} || MacroQC)`.
use vstd::prelude::*;
use crate::crypto::{blake3_with_dst, digest_with_dst, Dst};
use crate::types::crypto_types::Hash32;

verus! {

/// Next beacon output from the previous beacon and a macro QC hash.
pub fn chain_beacon(prev: &Hash32, macro_qc_hash: &Hash32) -> (r: Hash32)
    ensures
        r.0@ == digest_with_dst(Dst::Beacon, prev.0@ + macro_qc_hash.0@),
{
    let mut buf: Vec<u8> = Vec::new();
    crate::codec::push_32(&mut buf, &prev.0);
    crate::codec::push_32(&mut buf, &macro_qc_hash.0);
    blake3_with_dst(Dst::Beacon, buf.as_slice())
}

} // verus!
