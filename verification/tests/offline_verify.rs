use blst::min_pk::SecretKey;
use consensus::crypto::{bls_aggregate_sigs, Dst};
use consensus::dag::{seal_hash, signing_bytes, verify_certified_vertex};
use consensus::event::{BlsPartial, SubnetId};
use consensus::macro_fin::aggregation::mode_b_leaderless::pick_canonical;
use consensus::macro_fin::book::{fixture_partial_sig, micro_root_of_ring, MacroBook};
use consensus::macro_fin::macro_qc::try_finalize_mode0;
use consensus::macro_fin::messages::{checkpoint_message, partial_message, proposer_message};
use consensus::macro_fin::verify::{pk_from_entry, verify_macro_qc, verify_partial as verify_macro_partial};
use consensus::slashing::vertex_equivocation::{detect, verify as verify_vertex_equivocation};
use consensus::table::{KeySet, Table};
use consensus::types::crypto_types::{BlsAggSig, BlsPubkey, BlsSig, Hash32, VrfPubkey};
use consensus::types::dag::{CertifiedVertex, Vertex, VertexPartial, VertexProposal};
use consensus::types::macros::{AggregationMode, MacroCheckpoint, MacroQc};
use consensus::types::primitives::{Epoch, Height, Round, StakeWeight, ValidatorId};
use consensus::types::validator::{ValidatorEntry, ValidatorIdentity, ValidatorSet};
use consensus::vertex_cert::verify::{verify_partial as verify_vertex_partial, verify_proposal};

struct Ring {
    sks: Vec<SecretKey>,
    set: ValidatorSet,
}

fn entry(id: ValidatorId, sk: &SecretKey) -> ValidatorEntry {
    ValidatorEntry {
        id,
        bls_pubkey: BlsPubkey(sk.sk_to_pk().to_bytes()),
        vrf_pubkey: VrfPubkey([0; 32]),
        stake: StakeWeight(1),
        identity: ValidatorIdentity { asn: None, cloud: None, region: None },
    }
}

impl Ring {
    fn new(n: u8) -> Self {
        let sks: Vec<SecretKey> = (0..n).map(|i| SecretKey::key_gen(&[i + 1; 32], &[]).unwrap()).collect();
        let entries = (0..n).map(|i| entry(ValidatorId([i; 32]), &sks[i as usize])).collect();
        let set = ValidatorSet { epoch: Epoch(0), entries, total_stake: StakeWeight(u64::from(n)) };
        Ring { sks, set }
    }

    fn id(&self, i: u8) -> ValidatorId {
        ValidatorId([i; 32])
    }

    fn sign(&self, i: u8, dst: Dst, msg: &[u8]) -> BlsSig {
        BlsSig(self.sks[i as usize].sign(msg, &dst.to_vec(), &[]).to_bytes())
    }
}

fn checkpoint(hash: u8) -> MacroCheckpoint {
    MacroCheckpoint {
        height: Height(0),
        epoch: Epoch(0),
        parent: Hash32::zero(),
        micro_root: Hash32([1; 32]),
        hash: Hash32([hash; 32]),
    }
}

#[test]
fn micro_root_is_deterministic_and_order_sensitive() {
    let a = vec![Hash32([0x11; 32]), Hash32([0x22; 32])];
    let b = vec![Hash32([0x22; 32]), Hash32([0x11; 32])];
    let ra = micro_root_of_ring(&a);
    let rb = micro_root_of_ring(&b);
    assert_eq!(ra, micro_root_of_ring(&a));
    assert_ne!(ra, rb, "order matters");
}

#[test]
fn fixture_partial_sig_differs_by_validator_and_hash() {
    let v0 = ValidatorId([0; 32]);
    let v1 = ValidatorId([1; 32]);
    let h0 = Hash32([0xAA; 32]);
    let h1 = Hash32([0xBB; 32]);
    let s00 = fixture_partial_sig(&v0, &h0);
    let s10 = fixture_partial_sig(&v1, &h0);
    let s01 = fixture_partial_sig(&v0, &h1);
    assert_ne!(s00, s10);
    assert_ne!(s00, s01);
    assert_eq!(s00, fixture_partial_sig(&v0, &h0));
}

#[test]
fn book_starts_at_genesis() {
    let book = MacroBook::new(ValidatorId([7; 32]));
    assert_eq!(book.next_height, Height(0));
    assert_eq!(book.last_macro_hash, Hash32::zero());
    assert_eq!(book.emitted_macro_qc_count(), 0);
    assert_eq!(book.suppressed_conflicts(), 0);
    assert_eq!(book.rejected_crypto(), 0);
}

#[test]
fn partial_message_is_stable() {
    let v = ValidatorId([1; 32]);
    let h = Hash32([2; 32]);
    assert_eq!(partial_message(&v, &h), partial_message(&v, &h));
    let mut expected = vec![1u8; 32];
    expected.extend_from_slice(&[2u8; 32]);
    assert_eq!(partial_message(&v, &h), expected);
}

#[test]
fn proposer_message_matches_partial_when_same_id_and_hash() {
    let v = ValidatorId([1; 32]);
    let cp = MacroCheckpoint {
        height: Height(0),
        epoch: Epoch(0),
        parent: Hash32([0x99; 32]),
        micro_root: Hash32([3; 32]),
        hash: Hash32([2; 32]),
    };
    assert_eq!(partial_message(&v, &cp.hash), proposer_message(&v, &cp));
}

#[test]
fn at_threshold_builds_real_aggregate() {
    let ring = Ring::new(3);
    let cp = checkpoint(2);
    let msg = checkpoint_message(&cp);
    let mut partial_sigs = Table::new();
    let mut signers = KeySet::new();
    for i in 0..3u8 {
        signers.insert(ring.id(i));
        partial_sigs.insert((cp.hash, ring.id(i)), ring.sign(i, Dst::MacroCheckpoint, &msg));
    }
    let qc = try_finalize_mode0(cp.hash, &signers, &partial_sigs, &ring.set, &cp).unwrap();
    assert_ne!(qc.agg.sig.0, [0xCD; 96]);
    assert_eq!(qc.mode, AggregationMode::Mode0Flat);
    assert_eq!(qc.agg.bitmap, vec![0b0000_0111]);
    assert!(verify_macro_qc(&ring.set, &qc, &cp));
}

#[test]
fn below_threshold_builds_nothing() {
    let ring = Ring::new(4);
    let cp = checkpoint(2);
    let msg = checkpoint_message(&cp);
    let mut partial_sigs = Table::new();
    let mut signers = KeySet::new();
    for i in 0..2u8 {
        signers.insert(ring.id(i));
        partial_sigs.insert((cp.hash, ring.id(i)), ring.sign(i, Dst::MacroCheckpoint, &msg));
    }
    assert!(try_finalize_mode0(cp.hash, &signers, &partial_sigs, &ring.set, &cp).is_none());
}

#[test]
fn valid_partial_passes_flipped_fails() {
    let sk = SecretKey::key_gen(&[11; 32], &[]).unwrap();
    let id = ValidatorId([5; 32]);
    let set = ValidatorSet { epoch: Epoch(0), entries: vec![entry(id, &sk)], total_stake: StakeWeight(1) };
    let cp = checkpoint(9);
    let msg = checkpoint_message(&cp);
    let sig = BlsSig(sk.sign(&msg, &Dst::MacroCheckpoint.to_vec(), &[]).to_bytes());
    let bp = BlsPartial { subnet: SubnetId(0), validator: id, checkpoint_hash: cp.hash, sig };
    assert!(verify_macro_partial(&set, &bp, &cp));
    let mut bad = bp;
    bad.sig.0[0] ^= 0x01;
    assert!(!verify_macro_partial(&set, &bad, &cp));
    let mut other_hash = bp;
    other_hash.checkpoint_hash = Hash32([8; 32]);
    assert!(!verify_macro_partial(&set, &other_hash, &cp));
}

#[test]
fn verify_macro_qc_with_real_aggregate() {
    let ring = Ring::new(3);
    let cp = checkpoint(2);
    let msg = checkpoint_message(&cp);
    let sigs: Vec<BlsSig> = (0..3u8).map(|i| ring.sign(i, Dst::MacroCheckpoint, &msg)).collect();
    let agg = bls_aggregate_sigs(&sigs).unwrap();
    let mut bitmap = vec![0u8; 1];
    for i in 0..3 {
        bitmap[0] |= 1 << i;
    }
    let qc = MacroQc {
        checkpoint_hash: cp.hash,
        mode: AggregationMode::Mode0Flat,
        agg: BlsAggSig { sig: agg, bitmap },
    };
    assert!(verify_macro_qc(&ring.set, &qc, &cp));
    let mut short = qc.duplicate();
    short.agg.bitmap = vec![0b0000_0011];
    assert!(!verify_macro_qc(&ring.set, &short, &cp));
}

#[test]
fn aggregate_of_no_signatures_is_refused() {
    assert!(bls_aggregate_sigs(&Vec::new()).is_none());
}

fn qc_with_bitmap(bitmap: Vec<u8>) -> MacroQc {
    MacroQc {
        checkpoint_hash: Hash32([1; 32]),
        mode: AggregationMode::ModeBLeaderless,
        agg: BlsAggSig { sig: BlsSig([0; 96]), bitmap },
    }
}

#[test]
fn pick_canonical_prefers_higher_stake() {
    let low = qc_with_bitmap(vec![0b0000_0011]);
    let high = qc_with_bitmap(vec![0b0000_1111]);
    let picked = pick_canonical(&[low, high.duplicate()]).expect("pick");
    assert_eq!(picked.agg.bitmap, high.agg.bitmap);
}

#[test]
fn pick_canonical_lex_tiebreak_on_equal_stake() {
    let a = qc_with_bitmap(vec![0b0000_1010]);
    let b = qc_with_bitmap(vec![0b0000_0101]);
    let picked = pick_canonical(&[a.duplicate(), b.duplicate()]).expect("pick");
    assert_eq!(picked.agg.bitmap, b.agg.bitmap);
}

#[test]
fn pick_canonical_of_nothing_is_none() {
    let none: &[MacroQc] = &[];
    assert!(pick_canonical(none).is_none());
}

fn signed_proposal(ring: &Ring, author: u8, round: u64, parents: Vec<Hash32>) -> VertexProposal {
    let mut vertex = Vertex { round: Round(round), author: ring.id(author), parents, blobs: vec![], hash: Hash32::zero() };
    seal_hash(&mut vertex);
    let sig = ring.sign(author, Dst::VertexProposal, &signing_bytes(&vertex));
    VertexProposal { vertex, proposer_sig: sig }
}

#[test]
fn valid_double_propose_evidence_verifies() {
    let ring = Ring::new(1);
    let author = ring.id(0);
    let ev = detect(
        author,
        signed_proposal(&ring, 0, 2, vec![Hash32([1; 32])]),
        signed_proposal(&ring, 0, 2, vec![Hash32([2; 32])]),
    );
    verify_vertex_equivocation(&ev, &ring.set).expect("valid evidence");
}

#[test]
fn same_hash_pair_is_rejected() {
    let ring = Ring::new(1);
    let author = ring.id(0);
    let p = signed_proposal(&ring, 0, 2, vec![Hash32([1; 32])]);
    let ev = detect(author, p.duplicate(), p);
    assert!(verify_vertex_equivocation(&ev, &ring.set).is_err());
}

#[test]
fn forged_sig_is_rejected() {
    let ring = Ring::new(1);
    let author = ring.id(0);
    let mut bad = signed_proposal(&ring, 0, 2, vec![Hash32([2; 32])]);
    bad.proposer_sig = BlsSig([0xEE; 96]);
    let ev = detect(author, signed_proposal(&ring, 0, 2, vec![Hash32([1; 32])]), bad);
    assert!(verify_vertex_equivocation(&ev, &ring.set).is_err());
}

#[test]
fn different_rounds_are_not_equivocation() {
    let ring = Ring::new(1);
    let author = ring.id(0);
    let ev = detect(
        author,
        signed_proposal(&ring, 0, 2, vec![Hash32([1; 32])]),
        signed_proposal(&ring, 0, 3, vec![Hash32([2; 32])]),
    );
    assert!(verify_vertex_equivocation(&ev, &ring.set).is_err());
}

fn sealed(ring: &Ring, author: u8) -> Vertex {
    let mut v = Vertex { round: Round(0), author: ring.id(author), parents: vec![], blobs: vec![], hash: Hash32::zero() };
    seal_hash(&mut v);
    v
}

#[test]
fn proposal_sig_verifies_and_forgery_fails() {
    let ring = Ring::new(4);
    let vertex = sealed(&ring, 0);
    let msg = signing_bytes(&vertex);
    let good = VertexProposal { vertex: vertex.duplicate(), proposer_sig: ring.sign(0, Dst::VertexProposal, &msg) };
    assert!(verify_proposal(&ring.set, &good));
    let forged = VertexProposal { vertex, proposer_sig: ring.sign(1, Dst::VertexProposal, &msg) };
    assert!(!verify_proposal(&ring.set, &forged));
}

#[test]
fn partial_verifies_and_field_mismatch_fails() {
    let ring = Ring::new(4);
    let vertex = sealed(&ring, 0);
    let msg = signing_bytes(&vertex);
    let good = VertexPartial {
        vertex_hash: vertex.hash,
        round: vertex.round,
        author: vertex.author,
        voter: ring.id(1),
        sig: ring.sign(1, Dst::VertexCert, &msg),
    };
    assert!(verify_vertex_partial(&ring.set, &good, &vertex));
    let mut wrong_round = good;
    wrong_round.round = Round(9);
    assert!(!verify_vertex_partial(&ring.set, &wrong_round, &vertex));
    let mut unknown_voter = good;
    unknown_voter.voter = ValidatorId([0xEE; 32]);
    assert!(!verify_vertex_partial(&ring.set, &unknown_voter, &vertex));
}

#[test]
fn certified_vertex_verifies_with_quorum_and_not_below() {
    let ring = Ring::new(4);
    let vertex = sealed(&ring, 0);
    let msg = signing_bytes(&vertex);
    let sigs: Vec<BlsSig> = (0..3u8).map(|i| ring.sign(i, Dst::VertexCert, &msg)).collect();
    let agg = bls_aggregate_sigs(&sigs).unwrap();
    let cv = CertifiedVertex { vertex: vertex.duplicate(), agg: BlsAggSig { sig: agg, bitmap: vec![0b0000_0111] } };
    assert!(verify_certified_vertex(&cv, &ring.set));
    let two: Vec<BlsSig> = (0..2u8).map(|i| ring.sign(i, Dst::VertexCert, &msg)).collect();
    let agg2 = bls_aggregate_sigs(&two).unwrap();
    let weak = CertifiedVertex { vertex, agg: BlsAggSig { sig: agg2, bitmap: vec![0b0000_0011] } };
    assert!(!verify_certified_vertex(&weak, &ring.set));
}

#[test]
fn public_key_decoding_accepts_real_keys_only() {
    let ring = Ring::new(1);
    let good = ring.set.entries[0].clone();
    assert_eq!(pk_from_entry(&good), Some(good.bls_pubkey));
    let mut bad = good;
    bad.bls_pubkey = BlsPubkey([0; 48]);
    assert_eq!(pk_from_entry(&bad), None);
}
