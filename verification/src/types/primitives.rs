//! Counters and identifiers.
use vstd::prelude::*;

verus! {

/// Consensus round (one DAG layer).
#[derive(Clone, Copy, Debug, PartialEq, Eq, Structural)]
pub struct Round(pub u64);

/// Macro-finality height.
#[derive(Clone, Copy, Debug, PartialEq, Eq, Structural)]
pub struct Height(pub u64);

/// Validator-set epoch.
#[derive(Clone, Copy, Debug, PartialEq, Eq, Structural)]
pub struct Epoch(pub u64);

/// Stake weight.
#[derive(Clone, Copy, Debug, PartialEq, Eq, Structural)]
pub struct StakeWeight(pub u64);

/// Validator identifier (32 opaque bytes).
#[derive(Clone, Copy, Debug, PartialEq, Eq, Hash, PartialOrd, Ord)]
pub struct ValidatorId(pub [u8; 32]);

/// Blob identifier (32 opaque bytes).
#[derive(Clone, Copy, Debug, PartialEq, Eq, Hash)]
pub struct BlobId(pub [u8; 32]);

impl ValidatorId {
    /// Raw bytes.
    pub fn as_bytes(&self) -> (r: &[u8; 32])
        ensures
            *r == self.0,
    {
        &self.0
    }

    /// Identity equality.
    pub fn same(&self, other: &ValidatorId) -> (r: bool)
        ensures
            r == (*self == *other),
    {
        crate::bytes::eq32(&self.0, &other.0)
    }

    /// Lexicographic `self < other` on the raw bytes.
    pub fn less(&self, other: &ValidatorId) -> (r: bool)
        ensures
            r == crate::bytes::lex_lt(self.0@, other.0@),
    {
        crate::bytes::lt32(&self.0, &other.0)
    }
}

impl Default for ValidatorId {
    fn default() -> (r: Self)
        ensures
            r.0@ == Seq::new(32, |i: int| 0u8),
    {
        let r = ValidatorId([0u8; 32]);
        assert(r.0@ =~= Seq::new(32, |i: int| 0u8));
        r
    }
}

impl crate::table::Key for ValidatorId {
    fn key_eq(&self, other: &Self) -> (r: bool) {
        self.same(other)
    }
}

impl crate::table::Key for Height {
    fn key_eq(&self, other: &Self) -> (r: bool) {
        self.0 == other.0
    }
}

impl crate::table::Key for Round {
    fn key_eq(&self, other: &Self) -> (r: bool) {
        self.0 == other.0
    }
}

impl BlobId {
    /// Identity equality.
    pub fn same(&self, other: &BlobId) -> (r: bool)
        ensures
            r == (*self == *other),
    {
        crate::bytes::eq32(&self.0, &other.0)
    }
}

} // verus!
