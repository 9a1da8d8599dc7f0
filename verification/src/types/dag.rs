//! DAG vertices, proposals, partial votes and certificates.
use vstd::prelude::*;
use crate::types::crypto_types::{BlsAggSig, BlsSig, Hash32};
use crate::types::primitives::{BlobId, Round, ValidatorId};

verus! {

/// Reference to a blob carried by a vertex.
#[derive(Clone, Copy, Debug, PartialEq, Eq)]
pub struct BlobRef {
    /// Blob identifier.
    pub blob_id: BlobId,
    /// Commitment to the blob contents.
    pub commitment: Hash32,
    /// Size in bytes.
    pub size_bytes: u64,
}

/// A DAG vertex.
#[derive(Debug, PartialEq, Eq)]
pub struct Vertex {
    /// Round.
    pub round: Round,
    /// Author.
    pub author: ValidatorId,
    /// Certified parents from the previous round.
    pub parents: Vec<Hash32>,
    /// Blobs carried.
    pub blobs: Vec<BlobRef>,
    /// Content hash (sealed).
    pub hash: Hash32,
}

/// A signed vertex proposal.
#[derive(Debug, PartialEq, Eq)]
pub struct VertexProposal {
    /// The vertex.
    pub vertex: Vertex,
    /// Author's signature over the vertex signing bytes.
    pub proposer_sig: BlsSig,
}

/// One validator's vote for another validator's vertex.
#[derive(Clone, Copy, Debug, PartialEq, Eq)]
pub struct VertexPartial {
    /// Hash of the voted vertex.
    pub vertex_hash: Hash32,
    /// Its round.
    pub round: Round,
    /// Its author.
    pub author: ValidatorId,
    /// The voter.
    pub voter: ValidatorId,
    /// Voter's signature.
    pub sig: BlsSig,
}

/// A vertex with a quorum certificate.
#[derive(Debug, PartialEq, Eq)]
pub struct CertifiedVertex {
    /// The vertex.
    pub vertex: Vertex,
    /// Aggregate over the voters' partials.
    pub agg: BlsAggSig,
}

impl Vertex {
    /// Same fields, sequences compared by contents.
    pub open spec fn same_as(&self, other: &Vertex) -> bool {
        &&& self.round == other.round
        &&& self.author == other.author
        &&& self.parents@ == other.parents@
        &&& self.blobs@ == other.blobs@
        &&& self.hash == other.hash
    }

    /// Deep copy.
    pub fn duplicate(&self) -> (r: Vertex)
        ensures
            r.same_as(self),
    {
        Vertex {
            round: self.round,
            author: self.author,
            parents: crate::bytes::copy_vec(&self.parents),
            blobs: crate::bytes::copy_vec(&self.blobs),
            hash: self.hash,
        }
    }
}

impl VertexProposal {
    /// Same vertex contents and signature.
    pub open spec fn same_as(&self, other: &VertexProposal) -> bool {
        self.vertex.same_as(&other.vertex) && self.proposer_sig == other.proposer_sig
    }

    /// Deep copy.
    pub fn duplicate(&self) -> (r: VertexProposal)
        ensures
            r.same_as(self),
    {
        VertexProposal { vertex: self.vertex.duplicate(), proposer_sig: self.proposer_sig }
    }
}

impl CertifiedVertex {
    /// Same vertex contents and aggregate.
    pub open spec fn same_as(&self, other: &CertifiedVertex) -> bool {
        self.vertex.same_as(&other.vertex) && self.agg.same_as(&other.agg)
    }

    /// Deep copy.
    pub fn duplicate(&self) -> (r: CertifiedVertex)
        ensures
            r.same_as(self),
    {
        CertifiedVertex { vertex: self.vertex.duplicate(), agg: self.agg.duplicate() }
    }
}

} // verus!
