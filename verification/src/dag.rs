//! Vertex hashing, signing bytes and quorum certificates of the DAG layer.
use vstd::prelude::*;
use crate::codec::{hashes_concat, push_32, push_le, u64_le};
use crate::crypto::{blake3_with_dst, bls_aggregate_valid, digest_with_dst, pk_bytes, bls_verify_aggregate, Dst};
use crate::macro_fin::verify::{marked_keys, marked_keys_valid, marked_pubkeys};
use crate::signers::{quorum, quorum_threshold};
use crate::types::crypto_types::Hash32;
use crate::types::dag::{BlobRef, CertifiedVertex, Vertex};
use crate::types::validator::ValidatorSet;

verus! {

broadcast use vstd::array::group_array_axioms;

/// One blob reference: `blob_id || commitment || size` (size little-endian).
pub open spec fn blob_ref_bytes(b: BlobRef) -> Seq<u8> {
    b.blob_id.0@ + b.commitment.0@ + u64_le(b.size_bytes)
}

/// Blob references in order.
pub open spec fn blobs_bytes(bs: Seq<BlobRef>) -> Seq<u8>
    decreases bs.len(),
{
    if bs.len() == 0 {
        Seq::empty()
    } else {
        blobs_bytes(bs.drop_last()) + blob_ref_bytes(bs.last())
    }
}

/// The vertex body: `round || author || #parents || parents || #blobs || blobs`,
/// integers little-endian over eight bytes.
pub open spec fn vertex_body(v: Vertex) -> Seq<u8> {
    u64_le(v.round.0) + v.author.0@ + u64_le(v.parents@.len() as u64) + hashes_concat(v.parents@)
        + u64_le(v.blobs@.len() as u64) + blobs_bytes(v.blobs@)
}

/// Content hash: the tagged digest of the body.
pub open spec fn spec_content_hash(v: Vertex) -> Seq<u8> {
    digest_with_dst(Dst::VertexHash, vertex_body(v))
}

/// What proposers and voters sign: the body, then the content hash.
pub open spec fn spec_signing_bytes(v: Vertex) -> Seq<u8> {
    vertex_body(v) + v.hash.0@
}

/// The body bytes of `v`.
pub fn body_bytes(v: &Vertex) -> (r: Vec<u8>)
    ensures
        r@ == vertex_body(*v),
{
    let mut buf: Vec<u8> = Vec::new();
    push_le(&mut buf, v.round.0, 8);
    push_32(&mut buf, &v.author.0);
    push_le(&mut buf, v.parents.len() as u64, 8);
    let ghost head = buf@;
    let mut i: usize = 0;
    while i < v.parents.len()
        invariant
            0 <= i <= v.parents.len(),
            buf@ == head + hashes_concat(v.parents@.subrange(0, i as int)),
        decreases v.parents.len() - i,
    {
        push_32(&mut buf, &v.parents[i].0);
        i = i + 1;
        assert(v.parents@.subrange(0, i as int).drop_last() =~= v.parents@.subrange(0, i - 1));
        assert(buf@ =~= head + hashes_concat(v.parents@.subrange(0, i as int)));
    }
    assert(v.parents@.subrange(0, v.parents@.len() as int) =~= v.parents@);
    push_le(&mut buf, v.blobs.len() as u64, 8);
    let ghost mid = buf@;
    let mut j: usize = 0;
    while j < v.blobs.len()
        invariant
            0 <= j <= v.blobs.len(),
            buf@ == mid + blobs_bytes(v.blobs@.subrange(0, j as int)),
        decreases v.blobs.len() - j,
    {
        let b = v.blobs[j];
        push_32(&mut buf, &b.blob_id.0);
        push_32(&mut buf, &b.commitment.0);
        push_le(&mut buf, b.size_bytes, 8);
        j = j + 1;
        assert(v.blobs@.subrange(0, j as int).drop_last() =~= v.blobs@.subrange(0, j - 1));
        assert(buf@ =~= mid + blobs_bytes(v.blobs@.subrange(0, j as int)));
    }
    assert(v.blobs@.subrange(0, v.blobs@.len() as int) =~= v.blobs@);
    assert(buf@ =~= vertex_body(*v));
    buf
}

/// Content hash of `v` (its `hash` field is not read).
pub fn content_hash(v: &Vertex) -> (h: Hash32)
    ensures
        h.0@ == spec_content_hash(*v),
{
    let body = body_bytes(v);
    blake3_with_dst(Dst::VertexHash, body.as_slice())
}

/// Set `v.hash` to its content hash.
pub fn seal_hash(v: &mut Vertex)
    ensures
        final(v).hash.0@ == spec_content_hash(*old(v)),
        final(v).round == old(v).round,
        final(v).author == old(v).author,
        final(v).parents == old(v).parents,
        final(v).blobs == old(v).blobs,
{
    let h = content_hash(v);
    v.hash = h;
}

/// The bytes proposers and voters sign for `v`.
pub fn signing_bytes(v: &Vertex) -> (r: Vec<u8>)
    ensures
        r@ == spec_signing_bytes(*v),
{
    let mut r = body_bytes(v);
    push_32(&mut r, &v.hash.0);
    r
}

/// A certified vertex is valid: its hash is the content hash, the set is not
/// empty, the bitmap marks at least `2f + 1` entries, every marked entry's key
/// decodes, and the aggregate verifies under the marked keys over the signing bytes.
pub open spec fn cert_valid(cv: CertifiedVertex, set: ValidatorSet) -> bool {
    let keys = marked_keys(set.entries@, cv.agg.bitmap@);
    &&& cv.vertex.hash.0@ == spec_content_hash(cv.vertex)
    &&& set.entries@.len() > 0
    &&& marked_keys_valid(set.entries@, cv.agg.bitmap@)
    &&& keys.len() >= quorum(set.entries@.len())
    &&& bls_aggregate_valid(pk_bytes(keys), Dst::VertexCert.bytes(), spec_signing_bytes(cv.vertex), cv.agg.sig.0@)
}

/// Check a certified vertex against the set.
pub fn verify_certified_vertex(cv: &CertifiedVertex, set: &ValidatorSet) -> (r: bool)
    ensures
        r == cert_valid(*cv, *set),
{
    let h = content_hash(&cv.vertex);
    if !h.same(&cv.vertex.hash) {
        proof {
            if cv.vertex.hash.0@ == h.0@ {
                assert(h.0 =~= cv.vertex.hash.0);
            }
        }
        return false;
    }
    let n = set.entries.len();
    if n == 0 {
        return false;
    }
    let Some(pks) = marked_pubkeys(set, &cv.agg.bitmap) else { return false };
    if pks.len() < quorum_threshold(n) {
        return false;
    }
    let msg = signing_bytes(&cv.vertex);
    bls_verify_aggregate(&pks, Dst::VertexCert.to_vec().as_slice(), msg.as_slice(), &cv.agg.sig)
}

} // verus!
