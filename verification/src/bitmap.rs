//! Signer bitmaps: bit `i` (little-endian within each byte) marks entry `i`
//! of the validator set.
use vstd::prelude::*;

verus! {

/// Bits `bits` packed least significant first.
pub open spec fn pack(bits: Seq<bool>) -> nat
    decreases bits.len(),
{
    if bits.len() == 0 {
        0
    } else {
        (if bits[0] { 1nat } else { 0nat }) + 2 * pack(bits.drop_first())
    }
}

/// Bit `m` of `v`.
pub open spec fn bit_of(v: nat, m: nat) -> bool
    decreases m,
{
    if m == 0 {
        v % 2 == 1
    } else {
        bit_of(v / 2, (m - 1) as nat)
    }
}

/// Bit `i` of a bitmap (false beyond its end).
pub open spec fn spec_bit(bitmap: Seq<u8>, i: int) -> bool {
    0 <= i && i / 8 < bitmap.len() && bit_of(bitmap[i / 8] as nat, (i % 8) as nat)
}

/// Number of bytes needed for `n` bits.
pub open spec fn bytes_for(n: nat) -> nat {
    (n + 7) / 8
}

/// The bits of byte `j` of the encoding of `bits`.
pub open spec fn byte_bits(bits: Seq<bool>, j: int) -> Seq<bool> {
    let lo = 8 * j;
    let hi = if 8 * j + 8 <= bits.len() { 8 * j + 8 } else { bits.len() as int };
    bits.subrange(lo, hi)
}

/// Bytes encoding `bits`.
pub open spec fn encode_bits(bits: Seq<bool>) -> Seq<u8> {
    Seq::new(bytes_for(bits.len()), |j: int| pack(byte_bits(bits, j)) as u8)
}

/// Number of set bits of `v`.
pub open spec fn popcount(v: nat) -> nat
    decreases v,
{
    if v == 0 {
        0
    } else {
        v % 2 + popcount(v / 2)
    }
}

/// Number of set bits in a bitmap.
pub open spec fn count_set(bitmap: Seq<u8>) -> nat
    decreases bitmap.len(),
{
    if bitmap.len() == 0 {
        0
    } else {
        count_set(bitmap.drop_last()) + popcount(bitmap.last() as nat)
    }
}

proof fn lemma_pack_bound(bits: Seq<bool>)
    ensures
        bits.len() <= 8 ==> pack(bits) < 256,
        bits.len() <= 7 ==> pack(bits) < 128,
        bits.len() <= 6 ==> pack(bits) < 64,
        bits.len() <= 5 ==> pack(bits) < 32,
        bits.len() <= 4 ==> pack(bits) < 16,
        bits.len() <= 3 ==> pack(bits) < 8,
        bits.len() <= 2 ==> pack(bits) < 4,
        bits.len() <= 1 ==> pack(bits) < 2,
        bits.len() == 0 ==> pack(bits) == 0,
    decreases bits.len(),
{
    if bits.len() > 0 {
        lemma_pack_bound(bits.drop_first());
    }
}

/// Reading bit `m` of a packed byte gives back the packed bit.
pub proof fn lemma_bit_of_pack(bits: Seq<bool>, m: nat)
    ensures
        bit_of(pack(bits), m) == (m < bits.len() && bits[m as int]),
    decreases m,
{
    let d: nat = if bits.len() > 0 && bits[0] { 1 } else { 0 };
    if bits.len() == 0 {
        lemma_bit_of_zero(m);
    } else {
        let rest = bits.drop_first();
        assert(pack(bits) == d + 2 * pack(rest));
        if m == 0 {
        } else {
            assert((d + 2 * pack(rest)) / 2 == pack(rest));
            lemma_bit_of_pack(rest, (m - 1) as nat);
            if m < bits.len() {
                assert(rest[m - 1] == bits[m as int]);
            }
        }
    }
}

proof fn lemma_bit_of_zero(m: nat)
    ensures
        !bit_of(0, m),
    decreases m,
{
    if m > 0 {
        lemma_bit_of_zero((m - 1) as nat);
    }
}

/// Bit `i` of the encoding of `bits` is `bits[i]`, and no bit beyond the end is set.
pub proof fn lemma_encode_bit(bits: Seq<bool>, i: int)
    requires
        0 <= i,
    ensures
        spec_bit(encode_bits(bits), i) == (i < bits.len() && bits[i]),
{
    let enc = encode_bits(bits);
    let j = i / 8;
    let m = i % 8;
    if j < bytes_for(bits.len()) {
        let bb = byte_bits(bits, j);
        lemma_pack_bound(bb);
        assert(enc[j] as nat == pack(bb));
        lemma_bit_of_pack(bb, m as nat);
        if m < bb.len() {
            assert(bb[m] == bits[8 * j + m]);
        }
    }
}

/// The bitmap encoding `bits`.
pub fn build_bitmap(bits: &Vec<bool>) -> (r: Vec<u8>)
    ensures
        r@ == encode_bits(bits@),
        r@.len() == bytes_for(bits@.len()),
{
    let n = bits.len();
    let nbytes = n / 8 + if n % 8 == 0 { 0 } else { 1 };
    let mut r: Vec<u8> = Vec::new();
    let mut j: usize = 0;
    while j < nbytes
        invariant
            n == bits@.len(),
            nbytes == bytes_for(n as nat),
            0 <= j <= nbytes,
            r@.len() == j,
            forall|t: int| 0 <= t < j ==> r@[t] == encode_bits(bits@)[t],
        decreases nbytes - j,
    {
        assert(8 * j < n);
        let lo = 8 * j;
        let hi = if n - lo >= 8 { lo + 8 } else { n };
        let ghost bb = byte_bits(bits@, j as int);
        let mut acc: u8 = 0;
        let mut k: usize = hi;
        while k > lo
            invariant
                lo == 8 * j,
                hi == (if 8 * j + 8 <= n { 8 * j + 8 } else { n as int }),
                n == bits@.len(),
                lo <= k <= hi,
                bb == bits@.subrange(lo as int, hi as int),
                acc as nat == pack(bits@.subrange(k as int, hi as int)),
                hi - k <= 8,
            decreases k - lo,
        {
            k = k - 1;
            let ghost tail = bits@.subrange(k as int, hi as int);
            assert(tail.drop_first() =~= bits@.subrange(k + 1, hi as int));
            proof {
                lemma_pack_bound(bits@.subrange(k + 1, hi as int));
            }
            acc = acc * 2 + if bits[k] { 1 } else { 0 };
        }
        proof {
            lemma_pack_bound(bb);
        }
        r.push(acc);
        j = j + 1;
    }
    assert(r@ =~= encode_bits(bits@));
    r
}

/// Bit `i` of `bitmap`.
pub fn test_bit(bitmap: &Vec<u8>, i: usize) -> (r: bool)
    ensures
        r == spec_bit(bitmap@, i as int),
{
    let j = i / 8;
    if j >= bitmap.len() {
        return false;
    }
    let m = i % 8;
    let mut v: u8 = bitmap[j];
    let mut t: usize = 0;
    while t < m
        invariant
            0 <= t <= m,
            m < 8,
            bit_of(v as nat, (m - t) as nat) == bit_of(bitmap@[j as int] as nat, m as nat),
        decreases m - t,
    {
        v = v / 2;
        t = t + 1;
    }
    v % 2 == 1
}

/// Number of set bits in `bitmap`.
pub fn count_ones(bitmap: &Vec<u8>) -> (r: u64)
    requires
        bitmap@.len() < 0x2000_0000,
    ensures
        r == count_set(bitmap@),
{
    let mut total: u64 = 0;
    let mut j: usize = 0;
    while j < bitmap.len()
        invariant
            0 <= j <= bitmap.len(),
            total == count_set(bitmap@.subrange(0, j as int)),
            total <= 8 * j,
            bitmap@.len() < 0x2000_0000,
        decreases bitmap.len() - j,
    {
        let mut v: u8 = bitmap[j];
        let mut c: u64 = 0;
        while v > 0
            invariant
                c + popcount(v as nat) == popcount(bitmap@[j as int] as nat),
                c + v <= 255,
            decreases v,
        {
            c = c + (v % 2) as u64;
            v = v / 2;
        }
        assert(bitmap@.subrange(0, j + 1).drop_last() =~= bitmap@.subrange(0, j as int));
        proof {
            lemma_popcount_le(bitmap@[j as int] as nat);
        }
        total = total + c;
        j = j + 1;
    }
    assert(bitmap@.subrange(0, bitmap@.len() as int) =~= bitmap@);
    total
}

proof fn lemma_popcount_le(v: nat)
    requires
        v < 256,
    ensures
        popcount(v) <= 8,
{
    reveal_with_fuel(pow2_nat, 9);
    lemma_popcount_log(v, 8);
}

proof fn lemma_popcount_log(v: nat, k: nat)
    requires
        v < pow2_nat(k),
    ensures
        popcount(v) <= k,
    decreases k,
{
    if k > 0 && v > 0 {
        lemma_popcount_log(v / 2, (k - 1) as nat);
    }
}

/// `2^k`.
pub open spec fn pow2_nat(k: nat) -> nat
    decreases k,
{
    if k == 0 {
        1
    } else {
        2 * pow2_nat((k - 1) as nat)
    }
}

} // verus!
