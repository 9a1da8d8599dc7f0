//! Hashes, signatures and key encodings.
use vstd::prelude::*;

verus! {

/// 32-byte digest.
#[derive(Clone, Copy, Debug, PartialEq, Eq, Hash, PartialOrd, Ord)]
pub struct Hash32(pub [u8; 32]);

/// Compressed BLS signature (G2, 96 bytes).
#[derive(Clone, Copy, Debug, PartialEq, Eq)]
pub struct BlsSig(pub [u8; 96]);

/// Compressed BLS public key (G1, 48 bytes).
#[derive(Clone, Copy, Debug, PartialEq, Eq)]
pub struct BlsPubkey(pub [u8; 48]);

/// VRF public key.
#[derive(Clone, Copy, Debug, PartialEq, Eq)]
pub struct VrfPubkey(pub [u8; 32]);

/// VRF proof bytes.
#[derive(Clone, Copy, Debug, PartialEq, Eq)]
pub struct VrfProof(pub [u8; 80]);

/// Aggregate BLS signature plus the signer bitmap (bit `i` = entry `i`).
#[derive(Debug, PartialEq, Eq)]
pub struct BlsAggSig {
    /// Aggregated signature.
    pub sig: BlsSig,
    /// Little-endian bit order within each byte.
    pub bitmap: Vec<u8>,
}

/// The all-zero 32-byte string.
pub open spec fn zero32() -> Seq<u8> {
    Seq::new(32, |i: int| 0u8)
}

impl Hash32 {
    /// The all-zero digest.
    pub fn zero() -> (r: Hash32)
        ensures
            r.0@ == zero32(),
    {
        let r = Hash32([0u8; 32]);
        assert(r.0@ =~= zero32());
        r
    }

    /// Raw bytes.
    pub fn as_bytes(&self) -> (r: &[u8; 32])
        ensures
            *r == self.0,
    {
        &self.0
    }

    /// Digest equality.
    pub fn same(&self, other: &Hash32) -> (r: bool)
        ensures
            r == (*self == *other),
    {
        crate::bytes::eq32(&self.0, &other.0)
    }

    /// Lexicographic `self < other`.
    pub fn less(&self, other: &Hash32) -> (r: bool)
        ensures
            r == crate::bytes::lex_lt(self.0@, other.0@),
    {
        crate::bytes::lt32(&self.0, &other.0)
    }
}

impl crate::table::Key for Hash32 {
    fn key_eq(&self, other: &Self) -> (r: bool) {
        self.same(other)
    }
}

impl BlsSig {
    /// Byte equality.
    pub fn same(&self, other: &BlsSig) -> (r: bool)
        ensures
            r == (*self == *other),
    {
        let mut i: usize = 0;
        while i < 96
            invariant
                0 <= i <= 96,
                forall|j: int| 0 <= j < i ==> self.0@[j] == other.0@[j],
            decreases 96 - i,
        {
            if self.0[i] != other.0[i] {
                assert(self.0@[i as int] != other.0@[i as int]);
                return false;
            }
            i = i + 1;
        }
        assert(self.0 =~= other.0);
        true
    }
}

impl VrfPubkey {
    /// The all-zero key, meaning "no VRF key registered".
    pub fn zero() -> (r: VrfPubkey)
        ensures
            r.0@ == zero32(),
    {
        let r = VrfPubkey([0u8; 32]);
        assert(r.0@ =~= zero32());
        r
    }

    /// True when every byte is zero.
    pub fn is_zero(&self) -> (r: bool)
        ensures
            r == (self.0@ == zero32()),
    {
        let mut i: usize = 0;
        while i < 32
            invariant
                0 <= i <= 32,
                forall|j: int| 0 <= j < i ==> self.0@[j] == 0u8,
            decreases 32 - i,
        {
            if self.0[i] != 0 {
                assert(self.0@[i as int] != zero32()[i as int]);
                return false;
            }
            i = i + 1;
        }
        assert(self.0@ =~= zero32());
        true
    }
}

impl VrfProof {
    /// The all-zero proof.
    pub fn zero() -> (r: VrfProof)
        ensures
            forall|i: int| 0 <= i < 80 ==> r.0@[i] == 0u8,
    {
        VrfProof([0u8; 80])
    }
}

impl BlsAggSig {
    /// Same signature and same bitmap bytes.
    pub open spec fn same_as(&self, other: &BlsAggSig) -> bool {
        self.sig == other.sig && self.bitmap@ == other.bitmap@
    }

    /// Deep copy.
    pub fn duplicate(&self) -> (r: BlsAggSig)
        ensures
            r.same_as(self),
    {
        BlsAggSig { sig: self.sig, bitmap: crate::bytes::copy_vec(&self.bitmap) }
    }
}

} // verus!
