//! Canonical byte encodings (little-endian integers, length-prefixed lists).
use vstd::prelude::*;
use crate::types::crypto_types::Hash32;

verus! {

/// The `n` low bytes of `x`, least significant first.
pub open spec fn le_bytes(x: nat, n: nat) -> Seq<u8>
    decreases n,
{
    if n == 0 {
        Seq::empty()
    } else {
        seq![(x % 256) as u8] + le_bytes(x / 256, (n - 1) as nat)
    }
}

/// `le_bytes(x, n)` has `n` bytes.
pub proof fn lemma_le_bytes_len(x: nat, n: nat)
    ensures
        le_bytes(x, n).len() == n,
    decreases n,
{
    if n > 0 {
        lemma_le_bytes_len(x / 256, (n - 1) as nat);
    }
}

/// Eight-byte little-endian encoding.
pub open spec fn u64_le(x: u64) -> Seq<u8> {
    le_bytes(x as nat, 8)
}

/// Four-byte little-endian encoding.
pub open spec fn u32_le(x: nat) -> Seq<u8> {
    le_bytes(x, 4)
}

/// Concatenation of the 32-byte digests in order.
pub open spec fn hashes_concat(hs: Seq<Hash32>) -> Seq<u8>
    decreases hs.len(),
{
    if hs.len() == 0 {
        Seq::empty()
    } else {
        hashes_concat(hs.drop_last()) + hs.last().0@
    }
}

/// Length-prefixed list of digests: four-byte little-endian count, then the digests.
pub open spec fn hash_list_bytes(hs: Seq<Hash32>) -> Seq<u8> {
    u32_le(hs.len()) + hashes_concat(hs)
}

/// Appends the `n` low bytes of `x`, least significant first.
pub fn push_le(buf: &mut Vec<u8>, x: u64, n: usize)
    requires
        n <= 8,
    ensures
        final(buf)@ == old(buf)@ + le_bytes(x as nat, n as nat),
{
    let ghost start = buf@;
    let mut rem: u64 = x;
    let mut i: usize = 0;
    while i < n
        invariant
            0 <= i <= n,
            buf@ + le_bytes(rem as nat, (n - i) as nat) == start + le_bytes(x as nat, n as nat),
        decreases n - i,
    {
        let ghost before = buf@;
        buf.push((rem % 256) as u8);
        assert(le_bytes(rem as nat, (n - i) as nat) == seq![(rem as nat % 256) as u8] + le_bytes(
            rem as nat / 256,
            (n - i - 1) as nat,
        ));
        assert(buf@ + le_bytes(rem as nat / 256, (n - i - 1) as nat) =~= before + le_bytes(
            rem as nat,
            (n - i) as nat,
        ));
        rem = rem / 256;
        i = i + 1;
    }
    assert(le_bytes(rem as nat, 0) =~= Seq::<u8>::empty());
    assert(buf@ =~= buf@ + le_bytes(rem as nat, 0));
}

/// Appends 32 raw bytes.
pub fn push_32(buf: &mut Vec<u8>, bytes: &[u8; 32])
    ensures
        final(buf)@ == old(buf)@ + bytes@,
{
    let ghost start = buf@;
    let mut i: usize = 0;
    while i < 32
        invariant
            0 <= i <= 32,
            bytes@.len() == 32,
            buf@ == start + bytes@.subrange(0, i as int),
        decreases 32 - i,
    {
        buf.push(bytes[i]);
        i = i + 1;
        assert(buf@ =~= start + bytes@.subrange(0, i as int));
    }
    assert(bytes@.subrange(0, 32) =~= bytes@);
}

/// Appends every byte of `src`.
pub fn push_all(buf: &mut Vec<u8>, src: &[u8])
    ensures
        final(buf)@ == old(buf)@ + src@,
{
    let ghost start = buf@;
    let mut i: usize = 0;
    while i < src.len()
        invariant
            0 <= i <= src.len(),
            buf@ == start + src@.subrange(0, i as int),
        decreases src.len() - i,
    {
        buf.push(src[i]);
        i = i + 1;
        assert(buf@ =~= start + src@.subrange(0, i as int));
    }
    assert(src@.subrange(0, src@.len() as int) =~= src@);
}

/// Length-prefixed encoding of a digest list.
pub fn encode_hash_list(hs: &Vec<Hash32>) -> (r: Vec<u8>)
    requires
        hs.len() <= u32::MAX,
    ensures
        r@ == hash_list_bytes(hs@),
{
    let mut r: Vec<u8> = Vec::new();
    push_le(&mut r, hs.len() as u64, 4);
    let mut i: usize = 0;
    while i < hs.len()
        invariant
            0 <= i <= hs.len(),
            r@ == u32_le(hs@.len()) + hashes_concat(hs@.subrange(0, i as int)),
        decreases hs.len() - i,
    {
        let ghost before = r@;
        push_32(&mut r, &hs[i].0);
        i = i + 1;
        assert(hs@.subrange(0, i as int).drop_last() =~= hs@.subrange(0, i - 1));
        assert(r@ =~= u32_le(hs@.len()) + hashes_concat(hs@.subrange(0, i as int)));
    }
    assert(hs@.subrange(0, hs@.len() as int) =~= hs@);
    r
}

} // verus!
