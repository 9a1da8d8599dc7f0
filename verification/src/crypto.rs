//! Hashing and BLS signatures over the outside `blake3` and `blst` crates.
use vstd::prelude::*;
use crate::types::crypto_types::{BlsPubkey, BlsSig, Hash32};

verus! {

/// Domain-separation tags.
#[derive(Clone, Copy, Debug, PartialEq, Eq, Structural)]
pub enum Dst {
    /// `LUA-DAG-V1/BEACON`.
    Beacon,
    /// `LUA-DAG-V1/MICRO_QC`.
    MicroQc,
    /// `LUA-DAG-V1/MACRO_CHECKPOINT`.
    MacroCheckpoint,
    /// `LUA-DAG-V1/MACRO_MICRO_ROOT`.
    MacroMicroRoot,
    /// `LUA-DAG-V1/MACRO_PROPOSER_SIG`.
    MacroProposerSig,
    /// `LUA-DAG-V1/MACRO_VOTE`.
    MacroVote,
    /// `LUA-DAG-V1/SUBNET_ASSIGN`.
    SubnetAssign,
    /// `LUA-DAG-V1/VALIDATOR_BLS_PARTIAL`.
    ValidatorBlsPartial,
    /// `LUA-DAG-V1/VERTEX_PROPOSAL`.
    VertexProposal,
    /// `LUA-DAG-V1/VERTEX_CERT`.
    VertexCert,
    /// `LUA-DAG-V1/VERTEX_HASH`.
    VertexHash,
}

impl Dst {
    /// The tag's bytes.
    pub open spec fn bytes(self) -> Seq<u8> {
        match self {
            Dst::Beacon => seq![76u8, 85u8, 65u8, 45u8, 68u8, 65u8, 71u8, 45u8, 86u8, 49u8, 47u8, 66u8, 69u8, 65u8, 67u8, 79u8, 78u8],
            Dst::MicroQc => seq![76u8, 85u8, 65u8, 45u8, 68u8, 65u8, 71u8, 45u8, 86u8, 49u8, 47u8, 77u8, 73u8, 67u8, 82u8, 79u8, 95u8, 81u8, 67u8],
            Dst::MacroCheckpoint => seq![76u8, 85u8, 65u8, 45u8, 68u8, 65u8, 71u8, 45u8, 86u8, 49u8, 47u8, 77u8, 65u8, 67u8, 82u8, 79u8, 95u8, 67u8, 72u8, 69u8, 67u8, 75u8, 80u8, 79u8, 73u8, 78u8, 84u8],
            Dst::MacroMicroRoot => seq![76u8, 85u8, 65u8, 45u8, 68u8, 65u8, 71u8, 45u8, 86u8, 49u8, 47u8, 77u8, 65u8, 67u8, 82u8, 79u8, 95u8, 77u8, 73u8, 67u8, 82u8, 79u8, 95u8, 82u8, 79u8, 79u8, 84u8],
            Dst::MacroProposerSig => seq![76u8, 85u8, 65u8, 45u8, 68u8, 65u8, 71u8, 45u8, 86u8, 49u8, 47u8, 77u8, 65u8, 67u8, 82u8, 79u8, 95u8, 80u8, 82u8, 79u8, 80u8, 79u8, 83u8, 69u8, 82u8, 95u8, 83u8, 73u8, 71u8],
            Dst::MacroVote => seq![76u8, 85u8, 65u8, 45u8, 68u8, 65u8, 71u8, 45u8, 86u8, 49u8, 47u8, 77u8, 65u8, 67u8, 82u8, 79u8, 95u8, 86u8, 79u8, 84u8, 69u8],
            Dst::SubnetAssign => seq![76u8, 85u8, 65u8, 45u8, 68u8, 65u8, 71u8, 45u8, 86u8, 49u8, 47u8, 83u8, 85u8, 66u8, 78u8, 69u8, 84u8, 95u8, 65u8, 83u8, 83u8, 73u8, 71u8, 78u8],
            Dst::ValidatorBlsPartial => seq![76u8, 85u8, 65u8, 45u8, 68u8, 65u8, 71u8, 45u8, 86u8, 49u8, 47u8, 86u8, 65u8, 76u8, 73u8, 68u8, 65u8, 84u8, 79u8, 82u8, 95u8, 66u8, 76u8, 83u8, 95u8, 80u8, 65u8, 82u8, 84u8, 73u8, 65u8, 76u8],
            Dst::VertexProposal => seq![76u8, 85u8, 65u8, 45u8, 68u8, 65u8, 71u8, 45u8, 86u8, 49u8, 47u8, 86u8, 69u8, 82u8, 84u8, 69u8, 88u8, 95u8, 80u8, 82u8, 79u8, 80u8, 79u8, 83u8, 65u8, 76u8],
            Dst::VertexCert => seq![76u8, 85u8, 65u8, 45u8, 68u8, 65u8, 71u8, 45u8, 86u8, 49u8, 47u8, 86u8, 69u8, 82u8, 84u8, 69u8, 88u8, 95u8, 67u8, 69u8, 82u8, 84u8],
            Dst::VertexHash => seq![76u8, 85u8, 65u8, 45u8, 68u8, 65u8, 71u8, 45u8, 86u8, 49u8, 47u8, 86u8, 69u8, 82u8, 84u8, 69u8, 88u8, 95u8, 72u8, 65u8, 83u8, 72u8],
        }
    }

    /// The tag's bytes, as a vector.
    pub fn to_vec(self) -> (r: Vec<u8>)
        ensures
            r@ == self.bytes(),
    {
        let r = match self {
            Dst::Beacon => vec![76u8, 85u8, 65u8, 45u8, 68u8, 65u8, 71u8, 45u8, 86u8, 49u8, 47u8, 66u8, 69u8, 65u8, 67u8, 79u8, 78u8],
            Dst::MicroQc => vec![76u8, 85u8, 65u8, 45u8, 68u8, 65u8, 71u8, 45u8, 86u8, 49u8, 47u8, 77u8, 73u8, 67u8, 82u8, 79u8, 95u8, 81u8, 67u8],
            Dst::MacroCheckpoint => vec![76u8, 85u8, 65u8, 45u8, 68u8, 65u8, 71u8, 45u8, 86u8, 49u8, 47u8, 77u8, 65u8, 67u8, 82u8, 79u8, 95u8, 67u8, 72u8, 69u8, 67u8, 75u8, 80u8, 79u8, 73u8, 78u8, 84u8],
            Dst::MacroMicroRoot => vec![76u8, 85u8, 65u8, 45u8, 68u8, 65u8, 71u8, 45u8, 86u8, 49u8, 47u8, 77u8, 65u8, 67u8, 82u8, 79u8, 95u8, 77u8, 73u8, 67u8, 82u8, 79u8, 95u8, 82u8, 79u8, 79u8, 84u8],
            Dst::MacroProposerSig => vec![76u8, 85u8, 65u8, 45u8, 68u8, 65u8, 71u8, 45u8, 86u8, 49u8, 47u8, 77u8, 65u8, 67u8, 82u8, 79u8, 95u8, 80u8, 82u8, 79u8, 80u8, 79u8, 83u8, 69u8, 82u8, 95u8, 83u8, 73u8, 71u8],
            Dst::MacroVote => vec![76u8, 85u8, 65u8, 45u8, 68u8, 65u8, 71u8, 45u8, 86u8, 49u8, 47u8, 77u8, 65u8, 67u8, 82u8, 79u8, 95u8, 86u8, 79u8, 84u8, 69u8],
            Dst::SubnetAssign => vec![76u8, 85u8, 65u8, 45u8, 68u8, 65u8, 71u8, 45u8, 86u8, 49u8, 47u8, 83u8, 85u8, 66u8, 78u8, 69u8, 84u8, 95u8, 65u8, 83u8, 83u8, 73u8, 71u8, 78u8],
            Dst::ValidatorBlsPartial => vec![76u8, 85u8, 65u8, 45u8, 68u8, 65u8, 71u8, 45u8, 86u8, 49u8, 47u8, 86u8, 65u8, 76u8, 73u8, 68u8, 65u8, 84u8, 79u8, 82u8, 95u8, 66u8, 76u8, 83u8, 95u8, 80u8, 65u8, 82u8, 84u8, 73u8, 65u8, 76u8],
            Dst::VertexProposal => vec![76u8, 85u8, 65u8, 45u8, 68u8, 65u8, 71u8, 45u8, 86u8, 49u8, 47u8, 86u8, 69u8, 82u8, 84u8, 69u8, 88u8, 95u8, 80u8, 82u8, 79u8, 80u8, 79u8, 83u8, 65u8, 76u8],
            Dst::VertexCert => vec![76u8, 85u8, 65u8, 45u8, 68u8, 65u8, 71u8, 45u8, 86u8, 49u8, 47u8, 86u8, 69u8, 82u8, 84u8, 69u8, 88u8, 95u8, 67u8, 69u8, 82u8, 84u8],
            Dst::VertexHash => vec![76u8, 85u8, 65u8, 45u8, 68u8, 65u8, 71u8, 45u8, 86u8, 49u8, 47u8, 86u8, 69u8, 82u8, 84u8, 69u8, 88u8, 95u8, 72u8, 65u8, 83u8, 72u8],
        };
        assert(r@ =~= self.bytes());
        r
    }
}

/// What `blake3::hash` returns for `data` (a function of the input alone).
pub uninterp spec fn blake3_digest(data: Seq<u8>) -> Seq<u8>;

/// Calls `blake3::hash`: the BLAKE3 digest of `data`, 32 bytes.
#[verifier::external_body]
fn blake3_hash(data: &[u8]) -> (r: [u8; 32])
    ensures
        r@ == blake3_digest(data@),
{
    *blake3::hash(data).as_bytes()
}

/// Domain-separated digest: BLAKE3 over the tag bytes followed by `data`.
pub open spec fn digest_with_dst(dst: Dst, data: Seq<u8>) -> Seq<u8> {
    blake3_digest(dst.bytes() + data)
}

/// Domain-separated BLAKE3 digest of `data` under `dst`.
pub fn blake3_with_dst(dst: Dst, data: &[u8]) -> (r: Hash32)
    ensures
        r.0@ == digest_with_dst(dst, data@),
{
    let mut buf = dst.to_vec();
    crate::codec::push_all(&mut buf, data);
    Hash32(blake3_hash(buf.as_slice()))
}

/// Whether `sig` is a valid BLS signature (min-pk scheme) by `pk` on `msg`
/// under domain tag `dst`, as decided by `blst` (a function of the bytes alone).
pub uninterp spec fn bls_valid(pk: Seq<u8>, dst: Seq<u8>, msg: Seq<u8>, sig: Seq<u8>) -> bool;

/// Calls `blst::min_pk::Signature::verify` (with group checks) after decoding
/// `pk` and `sig` with `from_bytes`; a decoding error counts as an invalid signature.
#[verifier::external_body]
pub(crate) fn bls_verify(pk: &BlsPubkey, dst: &[u8], msg: &[u8], sig: &BlsSig) -> (r: bool)
    ensures
        r == bls_valid(pk.0@, dst@, msg@, sig.0@),
{
    let Ok(pk) = blst::min_pk::PublicKey::from_bytes(&pk.0) else { return false };
    let Ok(sig) = blst::min_pk::Signature::from_bytes(&sig.0) else { return false };
    sig.verify(true, msg, dst, &[], &pk, true) == blst::BLST_ERROR::BLST_SUCCESS
}

/// Whether `blst` decodes the bytes as a public key (a function of the bytes alone).
pub uninterp spec fn bls_pk_valid(pk: Seq<u8>) -> bool;

/// Calls `blst::min_pk::PublicKey::from_bytes` and reports whether it succeeded.
#[verifier::external_body]
pub fn bls_pubkey_decodes(pk: &BlsPubkey) -> (r: bool)
    ensures
        r == bls_pk_valid(pk.0@),
{
    blst::min_pk::PublicKey::from_bytes(&pk.0).is_ok()
}

/// The compressed aggregate `blst` forms from the signatures, or `None` where it
/// refuses (a function of the bytes alone).
pub uninterp spec fn bls_aggregate(sigs: Seq<Seq<u8>>) -> Option<Seq<u8>>;

/// Byte views of a list of signatures.
pub open spec fn sig_bytes(sigs: Seq<BlsSig>) -> Seq<Seq<u8>> {
    sigs.map_values(|s: BlsSig| s.0@)
}

/// Calls `blst::min_pk::AggregateSignature::aggregate` (with group checks) on the
/// decoded signatures; `blst` refuses an empty list. Any decoding error gives `None`.
#[verifier::external_body]
pub fn bls_aggregate_sigs(sigs: &Vec<BlsSig>) -> (r: Option<BlsSig>)
    ensures
        sigs@.len() == 0 ==> r is None,
        match r {
            Some(s) => bls_aggregate(sig_bytes(sigs@)) == Some(s.0@),
            None => bls_aggregate(sig_bytes(sigs@)) is None,
        },
{
    let mut decoded = Vec::new();
    for s in sigs.iter() {
        decoded.push(blst::min_pk::Signature::from_bytes(&s.0).ok()?);
    }
    let refs: Vec<&blst::min_pk::Signature> = decoded.iter().collect();
    let agg = blst::min_pk::AggregateSignature::aggregate(&refs, true).ok()?;
    Some(BlsSig(agg.to_signature().to_bytes()))
}

/// Whether `sig` is a valid aggregate by all of `pks` on one `msg` under `dst`,
/// as decided by `blst` (a function of the bytes alone).
pub uninterp spec fn bls_aggregate_valid(pks: Seq<Seq<u8>>, dst: Seq<u8>, msg: Seq<u8>, sig: Seq<u8>) -> bool;

/// Byte views of a list of public keys.
pub open spec fn pk_bytes(pks: Seq<BlsPubkey>) -> Seq<Seq<u8>> {
    pks.map_values(|p: BlsPubkey| p.0@)
}

/// Calls `blst::min_pk::Signature::fast_aggregate_verify` (with group checks) after
/// decoding; a decoding error counts as invalid.
#[verifier::external_body]
pub(crate) fn bls_verify_aggregate(pks: &Vec<BlsPubkey>, dst: &[u8], msg: &[u8], sig: &BlsSig) -> (r: bool)
    ensures
        r == bls_aggregate_valid(pk_bytes(pks@), dst@, msg@, sig.0@),
{
    let mut decoded = Vec::new();
    for p in pks.iter() {
        let Ok(pk) = blst::min_pk::PublicKey::from_bytes(&p.0) else { return false };
        decoded.push(pk);
    }
    let refs: Vec<&blst::min_pk::PublicKey> = decoded.iter().collect();
    let Ok(sig) = blst::min_pk::Signature::from_bytes(&sig.0) else { return false };
    sig.fast_aggregate_verify(true, msg, dst, &refs) == blst::BLST_ERROR::BLST_SUCCESS
}

} // verus!
