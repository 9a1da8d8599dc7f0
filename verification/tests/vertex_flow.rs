use std::sync::Mutex;

use blst::min_pk::SecretKey;
use consensus::action::{Action, Actions};
use consensus::config::Config;
use consensus::crypto::{bls_aggregate_sigs, Dst};
use consensus::dag::{seal_hash, signing_bytes, verify_certified_vertex};
use consensus::error::Result;
use consensus::event::TimerId;
use consensus::host_context::HostContext;
use consensus::ports::{Clock, DagView, NoPendingBlobs, PendingBlobSource, Persistence, RandomnessBeacon, SignerPort, ValidatorSetPort};
use consensus::slashing::vertex_equivocation::verify as verify_vertex_equivocation;
use consensus::types::crypto_types::{BlsAggSig, BlsPubkey, BlsSig, Hash32, VrfProof, VrfPubkey};
use consensus::types::dag::{BlobRef, CertifiedVertex, Vertex, VertexPartial, VertexProposal};
use consensus::types::macros::{MacroCheckpoint, MacroQc};
use consensus::types::micro::MicroQc;
use consensus::types::primitives::{BlobId, Epoch, Height, Round, StakeWeight, ValidatorId};
use consensus::types::slashing::SlashEvidence;
use consensus::types::validator::{ValidatorEntry, ValidatorIdentity, ValidatorSet};
use consensus::vertex_cert::book::VertexBook;
use consensus::vertex_cert::verify::verify_partial;
use consensus::vertex_cert::verify::verify_proposal;
use consensus::vertex_cert::{
    genesis_propose, next_parents, on_certified_vertex, on_timer_fired, on_vertex_partial, on_vertex_proposal, quorum_need,
    round_delay_nanos, round_in_window, build_own_proposal,
};

struct Ring {
    sks: Vec<SecretKey>,
    set: ValidatorSet,
}

impl Ring {
    fn new(n: u8) -> Self {
        let sks: Vec<SecretKey> = (0..n).map(|i| SecretKey::key_gen(&[i + 1; 32], &[]).unwrap()).collect();
        let entries = (0..n)
            .map(|i| ValidatorEntry {
                id: ValidatorId([i; 32]),
                bls_pubkey: BlsPubkey(sks[i as usize].sk_to_pk().to_bytes()),
                vrf_pubkey: VrfPubkey([0; 32]),
                stake: StakeWeight(1),
                identity: ValidatorIdentity { asn: None, cloud: None, region: None },
            })
            .collect();
        let set = ValidatorSet { epoch: Epoch(0), entries, total_stake: StakeWeight(u64::from(n)) };
        Ring { sks, set }
    }

    fn id(&self, i: u8) -> ValidatorId {
        ValidatorId([i; 32])
    }

    fn sign(&self, i: u8, dst: Dst, msg: &[u8]) -> BlsSig {
        BlsSig(self.sks[i as usize].sign(msg, &dst.to_vec(), &[]).to_bytes())
    }
}

struct RingSigner<'a> {
    ring: &'a Ring,
    idx: usize,
}

impl SignerPort for RingSigner<'_> {
    fn spec_sign(&self, _dst: vstd::seq::Seq<u8>, _msg: vstd::seq::Seq<u8>) -> BlsSig {
        unreachable!()
    }

    fn sign_bls(&self, dst: &[u8], msg: &[u8]) -> BlsSig {
        BlsSig(self.ring.sks[self.idx].sign(msg, dst, &[]).to_bytes())
    }

    fn vrf_prove(&self, _alpha: &[u8]) -> Result<(VrfProof, Hash32)> {
        Ok((VrfProof([0; 80]), Hash32([0; 32])))
    }
}

struct FixedValset(ValidatorSet);

impl ValidatorSetPort for FixedValset {
    fn spec_set_for(&self, epoch: Epoch) -> Option<ValidatorSet> {
        if self.0.epoch == epoch { Some(self.0.clone()) } else { None }
    }

    fn set_for(&self, epoch: Epoch) -> Result<Option<ValidatorSet>> {
        Ok(if self.0.epoch == epoch { Some(self.0.clone()) } else { None })
    }

    fn index_of(&self, _epoch: Epoch, v: &ValidatorId) -> Result<Option<u32>> {
        Ok(self.0.entries.iter().position(|e| &e.id == v).map(|i| u32::try_from(i).unwrap()))
    }
}

struct EmptyDag;

impl DagView for EmptyDag {
    fn spec_vertex(&self, _h: Hash32) -> Option<CertifiedVertex> {
        None
    }

    fn spec_vertices_at_round(&self, _r: Round) -> vstd::seq::Seq<CertifiedVertex> {
        unreachable!()
    }

    fn vertex(&self, _h: &Hash32) -> Result<Option<CertifiedVertex>> {
        Ok(None)
    }

    fn vertices_at_round(&self, _r: Round) -> Result<Vec<CertifiedVertex>> {
        Ok(vec![])
    }
}

struct ZeroClock;

impl Clock for ZeroClock {
    fn now_nanos(&self) -> u128 {
        0
    }
}

struct ZeroBeacon;

impl RandomnessBeacon for ZeroBeacon {
    fn spec_current(&self) -> Hash32 {
        Hash32([0; 32])
    }

    fn current(&self) -> Result<Hash32> {
        Ok(Hash32([0; 32]))
    }
}

struct MemPersistence;

impl Persistence for MemPersistence {
    fn store_micro_qc(&self, _qc: &MicroQc) -> Result<()> {
        Ok(())
    }
    fn micro_qc_for(&self, _h: &Hash32) -> Result<Option<MicroQc>> {
        Ok(None)
    }
    fn store_macro_checkpoint(&self, _cp: &MacroCheckpoint) -> Result<()> {
        Ok(())
    }
    fn store_macro_qc(&self, _qc: &MacroQc) -> Result<()> {
        Ok(())
    }
    fn append_slash_evidence(&self, _ev: &SlashEvidence) -> Result<()> {
        Ok(())
    }
    fn macro_checkpoint_at(&self, _h: Height) -> Result<Option<MacroCheckpoint>> {
        Ok(None)
    }
    fn macro_qc_for(&self, _h: &Hash32) -> Result<Option<MacroQc>> {
        Ok(None)
    }
}

struct Parts {
    valset: FixedValset,
    dag: EmptyDag,
    clock: ZeroClock,
    beacon: ZeroBeacon,
    persistence: MemPersistence,
    pending: NoPendingBlobs,
}

impl Parts {
    fn new(ring: &Ring) -> Self {
        Parts {
            valset: FixedValset(ring.set.clone()),
            dag: EmptyDag,
            clock: ZeroClock,
            beacon: ZeroBeacon,
            persistence: MemPersistence,
            pending: NoPendingBlobs,
        }
    }

    fn ctx<'a>(&'a self, signer: &'a RingSigner<'a>, pending: &'a dyn PendingBlobSource) -> HostContext<'a> {
        HostContext {
            dag: &self.dag,
            clock: &self.clock,
            valset: &self.valset,
            beacon: &self.beacon,
            persistence: &self.persistence,
            signer,
            pending_blobs: pending,
        }
    }
}

fn proposal_from(ring: &Ring, author: u8, round: u64, parents: Vec<Hash32>) -> VertexProposal {
    let mut vertex = Vertex { round: Round(round), author: ring.id(author), parents, blobs: vec![], hash: Hash32::zero() };
    seal_hash(&mut vertex);
    let sig = ring.sign(author, Dst::VertexProposal, &signing_bytes(&vertex));
    VertexProposal { vertex, proposer_sig: sig }
}

fn collected(book: &VertexBook, h: &Hash32) -> usize {
    (0..book.collecting.len()).filter(|&i| (book.collecting.pair(i).0).0 == *h).count()
}

fn proposal_in(actions: &Actions) -> Option<VertexProposal> {
    actions.iter().find_map(|a| match a {
        Action::BroadcastVertexProposal(p) => Some(p.duplicate()),
        _ => None,
    })
}

#[test]
fn valid_genesis_proposal_yields_exactly_one_partial() {
    let ring = Ring::new(4);
    let parts = Parts::new(&ring);
    let signer = RingSigner { ring: &ring, idx: 1 };
    let ctx = parts.ctx(&signer, &parts.pending);
    let mut book = VertexBook::new(ring.id(1));
    let cfg = Config::default_table_17_1();
    let p = proposal_from(&ring, 0, 0, vec![]);
    let actions = on_vertex_proposal(&mut book, &cfg, p.duplicate(), &ctx).unwrap();
    assert_eq!(actions.len(), 1);
    let Action::BroadcastVertexPartial(bp) = &actions[0] else {
        panic!("expected partial, got {actions:?}");
    };
    assert_eq!(bp.vertex_hash, p.vertex.hash);
    assert_eq!(bp.author, ring.id(0));
    assert_eq!(bp.voter, ring.id(1));
    assert!(verify_partial(&ring.set, bp, &p.vertex));
    let again = on_vertex_proposal(&mut book, &cfg, p, &ctx).unwrap();
    assert!(again.is_empty());
}

#[test]
fn bad_proposer_sig_is_dropped() {
    let ring = Ring::new(4);
    let parts = Parts::new(&ring);
    let signer = RingSigner { ring: &ring, idx: 1 };
    let ctx = parts.ctx(&signer, &parts.pending);
    let mut book = VertexBook::new(ring.id(1));
    let cfg = Config::default_table_17_1();
    let mut p = proposal_from(&ring, 0, 0, vec![]);
    p.proposer_sig = BlsSig([0xEE; 96]);
    let actions = on_vertex_proposal(&mut book, &cfg, p, &ctx).unwrap();
    assert!(actions.is_empty());
    assert_eq!(book.rejected_crypto(), 1);
}

#[test]
fn uncertified_parents_hold_then_vote_on_redelivery() {
    let ring = Ring::new(4);
    let parts = Parts::new(&ring);
    let signer = RingSigner { ring: &ring, idx: 1 };
    let ctx = parts.ctx(&signer, &parts.pending);
    let mut book = VertexBook::new(ring.id(1));
    let cfg = Config::default_table_17_1();
    let parents = vec![Hash32([1; 32]), Hash32([2; 32]), Hash32([3; 32])];
    let p = proposal_from(&ring, 0, 1, parents.clone());
    let held = on_vertex_proposal(&mut book, &cfg, p.duplicate(), &ctx).unwrap();
    assert!(held.is_empty());
    for (i, h) in parents.iter().enumerate() {
        book.certified.insert((Round(0), ring.id(u8::try_from(i).unwrap())), *h);
    }
    let actions = on_vertex_proposal(&mut book, &cfg, p, &ctx).unwrap();
    assert_eq!(actions.len(), 1);
    assert!(matches!(actions[0], Action::BroadcastVertexPartial(_)));
}

#[test]
fn double_propose_different_hash_emits_slash_evidence() {
    let ring = Ring::new(4);
    let parts = Parts::new(&ring);
    let signer = RingSigner { ring: &ring, idx: 1 };
    let ctx = parts.ctx(&signer, &parts.pending);
    let mut book = VertexBook::new(ring.id(1));
    let cfg = Config::default_table_17_1();
    let a = proposal_from(&ring, 0, 0, vec![]);
    let b = proposal_from(&ring, 0, 0, vec![Hash32([9; 32])]);
    assert_ne!(a.vertex.hash, b.vertex.hash);
    let _ = on_vertex_proposal(&mut book, &cfg, a, &ctx).unwrap();
    let actions = on_vertex_proposal(&mut book, &cfg, b, &ctx).unwrap();
    assert_eq!(actions.len(), 1);
    let Action::EmitSlashEvidence { offender, evidence } = &actions[0] else {
        panic!("expected slash evidence, got {actions:?}");
    };
    assert_eq!(*offender, ring.id(0));
    let SlashEvidence::VertexEquivocation(ev) = evidence else {
        panic!("expected VertexEquivocation");
    };
    verify_vertex_equivocation(ev, &ring.set).expect("emitted evidence must verify offline");
}

#[test]
fn out_of_window_round_is_dropped() {
    let ring = Ring::new(4);
    let parts = Parts::new(&ring);
    let signer = RingSigner { ring: &ring, idx: 1 };
    let ctx = parts.ctx(&signer, &parts.pending);
    let mut book = VertexBook::new(ring.id(1));
    let cfg = Config::default_table_17_1();
    let far_future = proposal_from(&ring, 0, 50, vec![Hash32([1; 32])]);
    let actions = on_vertex_proposal(&mut book, &cfg, far_future, &ctx).unwrap();
    assert!(actions.is_empty());
    assert!(book.proposals_seen.is_empty(), "must not buffer far-future rounds");
    assert!(round_in_window(&book, Round(1)));
    assert!(!round_in_window(&book, Round(50)));
}

fn seed_own_proposal(book: &mut VertexBook, ring: &Ring, idx: u8, round: u64) -> VertexProposal {
    let mut vertex = Vertex { round: Round(round), author: ring.id(idx), parents: vec![], blobs: vec![], hash: Hash32::zero() };
    seal_hash(&mut vertex);
    let msg = signing_bytes(&vertex);
    let proposal = VertexProposal { vertex: vertex.duplicate(), proposer_sig: ring.sign(idx, Dst::VertexProposal, &msg) };
    book.my_proposals.push(proposal.duplicate());
    book.collecting.insert((vertex.hash, ring.id(idx)), ring.sign(idx, Dst::VertexCert, &msg));
    book.voted.insert((Round(round), ring.id(idx)));
    book.current_round = Round(round);
    proposal
}

fn partial(ring: &Ring, voter: u8, p: &VertexProposal) -> VertexPartial {
    VertexPartial {
        vertex_hash: p.vertex.hash,
        round: p.vertex.round,
        author: p.vertex.author,
        voter: ring.id(voter),
        sig: ring.sign(voter, Dst::VertexCert, &signing_bytes(&p.vertex)),
    }
}

#[test]
fn quorum_partials_emit_verifying_certified_vertex() {
    let ring = Ring::new(4);
    let parts = Parts::new(&ring);
    let signer = RingSigner { ring: &ring, idx: 0 };
    let ctx = parts.ctx(&signer, &parts.pending);
    let mut book = VertexBook::new(ring.id(0));
    let cfg = Config::default_table_17_1();
    let p = seed_own_proposal(&mut book, &ring, 0, 0);

    let a1 = on_vertex_partial(&mut book, &cfg, partial(&ring, 1, &p), &ctx).unwrap();
    assert!(a1.is_empty());
    let a2 = on_vertex_partial(&mut book, &cfg, partial(&ring, 2, &p), &ctx).unwrap();
    let cv = a2
        .iter()
        .find_map(|a| match a {
            Action::BroadcastCertifiedVertex(cv) => Some(cv.duplicate()),
            _ => None,
        })
        .expect("cert emitted at quorum");
    assert!(verify_certified_vertex(&cv, &ring.set), "cert must verify");
    assert_eq!(book.certified_count_at(Round(0)), 1, "self-recorded");
    let a3 = on_vertex_partial(&mut book, &cfg, partial(&ring, 3, &p), &ctx).unwrap();
    assert!(!a3.iter().any(|a| matches!(a, Action::BroadcastCertifiedVertex(_))));
}

#[test]
fn forged_partial_is_dropped() {
    let ring = Ring::new(4);
    let parts = Parts::new(&ring);
    let signer = RingSigner { ring: &ring, idx: 0 };
    let ctx = parts.ctx(&signer, &parts.pending);
    let mut book = VertexBook::new(ring.id(0));
    let cfg = Config::default_table_17_1();
    let p = seed_own_proposal(&mut book, &ring, 0, 0);
    let mut bad = partial(&ring, 1, &p);
    bad.sig = BlsSig([0xEE; 96]);
    let actions = on_vertex_partial(&mut book, &cfg, bad, &ctx).unwrap();
    assert!(actions.is_empty());
    assert_eq!(book.rejected_crypto(), 1);
    assert_eq!(collected(&book, &p.vertex.hash), 1, "only self sig");
}

#[test]
fn partial_for_foreign_author_is_ignored() {
    let ring = Ring::new(4);
    let parts = Parts::new(&ring);
    let signer = RingSigner { ring: &ring, idx: 0 };
    let ctx = parts.ctx(&signer, &parts.pending);
    let mut book = VertexBook::new(ring.id(3));
    let cfg = Config::default_table_17_1();
    let mut other = VertexBook::new(ring.id(0));
    let p = seed_own_proposal(&mut other, &ring, 0, 0);
    let actions = on_vertex_partial(&mut book, &cfg, partial(&ring, 1, &p), &ctx).unwrap();
    assert!(actions.is_empty());
    assert_eq!(book.collecting.len(), 0);
}

#[test]
fn duplicate_voter_counts_once_and_conflict_keeps_first() {
    let ring = Ring::new(4);
    let parts = Parts::new(&ring);
    let signer = RingSigner { ring: &ring, idx: 0 };
    let ctx = parts.ctx(&signer, &parts.pending);
    let mut book = VertexBook::new(ring.id(0));
    let cfg = Config::default_table_17_1();
    let p = seed_own_proposal(&mut book, &ring, 0, 0);
    let bp = partial(&ring, 1, &p);
    let _ = on_vertex_partial(&mut book, &cfg, bp, &ctx).unwrap();
    let _ = on_vertex_partial(&mut book, &cfg, bp, &ctx).unwrap();
    assert_eq!(collected(&book, &p.vertex.hash), 2);
    assert_eq!(book.partial_conflicts(), 0);
    let mut conflicting = bp;
    conflicting.sig = ring.sign(1, Dst::VertexCert, b"different message");
    let _ = on_vertex_partial(&mut book, &cfg, conflicting, &ctx).unwrap();
    assert_eq!(book.partial_conflicts(), 1);
    assert_eq!(collected(&book, &p.vertex.hash), 2, "first kept");
}

fn cert_for(ring: &Ring, author: u8, round: u64) -> CertifiedVertex {
    let mut vertex = Vertex { round: Round(round), author: ring.id(author), parents: vec![], blobs: vec![], hash: Hash32::zero() };
    seal_hash(&mut vertex);
    let msg = signing_bytes(&vertex);
    let sigs: Vec<BlsSig> = (0u8..3).map(|i| ring.sign(i, Dst::VertexCert, &msg)).collect();
    let sig = bls_aggregate_sigs(&sigs).unwrap();
    let cv = CertifiedVertex { vertex, agg: BlsAggSig { sig, bitmap: vec![0b0000_0111] } };
    assert!(verify_certified_vertex(&cv, &ring.set));
    cv
}

#[test]
fn genesis_propose_emits_proposal_and_timer_and_is_idempotent() {
    let ring = Ring::new(4);
    let parts = Parts::new(&ring);
    let signer = RingSigner { ring: &ring, idx: 0 };
    let ctx = parts.ctx(&signer, &parts.pending);
    let mut book = VertexBook::new(ring.id(0));
    let cfg = Config::default_table_17_1();
    let actions = genesis_propose(&mut book, &cfg, &ctx).unwrap();
    let proposal = proposal_in(&actions).expect("genesis proposal");
    assert_eq!(proposal.vertex.round, Round(0));
    assert_eq!(proposal.vertex.author, ring.id(0));
    assert!(proposal.vertex.parents.is_empty());
    assert!(verify_proposal(&ring.set, &proposal));
    assert!(actions.iter().any(|a| matches!(a, Action::ScheduleTimer { .. })), "round fallback timer armed");
    assert_eq!(collected(&book, &proposal.vertex.hash), 1);
    assert!(!actions.iter().any(|a| matches!(a, Action::BroadcastVertexPartial(_))));
    assert!(genesis_propose(&mut book, &cfg, &ctx).unwrap().is_empty());
}

#[test]
fn quorum_certs_advance_round_with_author_ordered_parents() {
    let ring = Ring::new(4);
    let parts = Parts::new(&ring);
    let signer = RingSigner { ring: &ring, idx: 0 };
    let ctx = parts.ctx(&signer, &parts.pending);
    let mut book = VertexBook::new(ring.id(0));
    let cfg = Config::default_table_17_1();
    let _ = genesis_propose(&mut book, &cfg, &ctx).unwrap();

    let mut actions = Actions::new();
    on_certified_vertex(&mut book, &cfg, &cert_for(&ring, 1, 0), &ctx, &mut actions).unwrap();
    on_certified_vertex(&mut book, &cfg, &cert_for(&ring, 2, 0), &ctx, &mut actions).unwrap();
    assert_eq!(book.current_round(), 0);
    assert!(actions.is_empty());

    on_certified_vertex(&mut book, &cfg, &cert_for(&ring, 3, 0), &ctx, &mut actions).unwrap();
    assert_eq!(book.current_round(), 1);
    let proposal = proposal_in(&actions).expect("round-1 proposal");
    assert_eq!(proposal.vertex.round, Round(1));
    assert_eq!(proposal.vertex.parents.len(), 3);
    let expected: Vec<Hash32> = (1u8..4).map(|a| cert_for(&ring, a, 0).vertex.hash).collect();
    assert_eq!(proposal.vertex.parents, expected);
    let mut again = Actions::new();
    on_certified_vertex(&mut book, &cfg, &cert_for(&ring, 3, 0), &ctx, &mut again).unwrap();
    assert_eq!(book.current_round(), 1);
    assert!(again.is_empty());
}

#[test]
fn next_parents_takes_lowest_authors_first() {
    let ring = Ring::new(4);
    let mut book = VertexBook::new(ring.id(0));
    book.certified.insert((Round(0), ring.id(3)), Hash32([3; 32]));
    book.certified.insert((Round(0), ring.id(1)), Hash32([1; 32]));
    book.certified.insert((Round(0), ring.id(2)), Hash32([2; 32]));
    assert_eq!(next_parents(&book, 2), vec![Hash32([1; 32]), Hash32([2; 32])]);
}

#[test]
fn timer_fire_rebroadcasts_same_proposal_and_never_jumps() {
    let ring = Ring::new(4);
    let parts = Parts::new(&ring);
    let signer = RingSigner { ring: &ring, idx: 0 };
    let ctx = parts.ctx(&signer, &parts.pending);
    let mut book = VertexBook::new(ring.id(0));
    let cfg = Config::default_table_17_1();
    let genesis = genesis_propose(&mut book, &cfg, &ctx).unwrap();
    let first = proposal_in(&genesis).unwrap();
    let timer_id = book.round_timer.expect("armed");

    let mut actions = Actions::new();
    on_timer_fired(&mut book, &cfg, &ctx, timer_id, &mut actions).unwrap();
    assert_eq!(book.current_round(), 0, "no round jump");
    assert_eq!(book.rounds_stalled(), 1);
    let rebroadcast = proposal_in(&actions).expect("re-broadcast");
    assert_eq!(rebroadcast.vertex.hash, first.vertex.hash, "immutable within round");
    let Some(Action::ScheduleTimer { delay_nanos, .. }) = actions.iter().find(|a| matches!(a, Action::ScheduleTimer { .. })) else {
        panic!("timer re-armed");
    };
    assert_eq!(*delay_nanos, u128::from(cfg.timing.round_duration_ms) * 1_000_000 * 2);
    let mut noop = Actions::new();
    on_timer_fired(&mut book, &cfg, &ctx, TimerId(9_999), &mut noop).unwrap();
    assert!(noop.is_empty());
}

#[test]
fn round_delay_grows_linearly_with_retries() {
    let cfg = Config::default_table_17_1();
    assert_eq!(round_delay_nanos(&cfg, 0), 250_000_000);
    assert_eq!(round_delay_nanos(&cfg, 1), 500_000_000);
    assert_eq!(round_delay_nanos(&cfg, 3), 1_000_000_000);
}

#[test]
fn quorum_need_is_two_thirds_plus_one() {
    let ring = Ring::new(4);
    assert_eq!(quorum_need(&ring.set).unwrap(), 3);
    let empty = ValidatorSet { epoch: Epoch(0), entries: vec![], total_stake: StakeWeight(0) };
    assert!(quorum_need(&empty).is_err());
}

#[test]
fn old_rounds_are_pruned_after_advance() {
    let ring = Ring::new(4);
    let parts = Parts::new(&ring);
    let signer = RingSigner { ring: &ring, idx: 0 };
    let ctx = parts.ctx(&signer, &parts.pending);
    let mut book = VertexBook::new(ring.id(0));
    let cfg = Config::default_table_17_1();
    let _ = genesis_propose(&mut book, &cfg, &ctx).unwrap();
    let mut actions = Actions::new();
    for round in 0u64..3 {
        for author in 1u8..4 {
            on_certified_vertex(&mut book, &cfg, &cert_for(&ring, author, round), &ctx, &mut actions).unwrap();
        }
    }
    assert_eq!(book.current_round(), 3);
    assert_eq!(book.certified_count_at(Round(0)), 0);
    assert_eq!(book.certified_count_at(Round(1)), 0);
    assert!(book.certified_count_at(Round(2)) > 0);
    assert!(book.my_proposals.iter().all(|p| p.vertex.round.0 + 1 >= 3));
}

struct RecordingPending {
    queue: Mutex<Vec<BlobRef>>,
    confirm_log: Mutex<Vec<Vec<BlobId>>>,
    boot_done: bool,
}

impl RecordingPending {
    fn with_blobs(blobs: Vec<BlobRef>, boot_done: bool) -> Self {
        RecordingPending { queue: Mutex::new(blobs), confirm_log: Mutex::new(Vec::new()), boot_done }
    }
}

impl PendingBlobSource for RecordingPending {
    fn drain(&self) -> Vec<BlobRef> {
        if !self.boot_done {
            return Vec::new();
        }
        self.queue.lock().expect("lock").drain(..).collect()
    }

    fn confirm_attached(&self, blobs: &[BlobRef]) {
        self.confirm_log.lock().expect("lock").push(blobs.iter().map(|b| b.blob_id).collect());
    }
}

fn sample_blob(byte: u8) -> BlobRef {
    BlobRef { blob_id: BlobId([byte; 32]), commitment: Hash32([byte; 32]), size_bytes: 1024 }
}

#[test]
fn propose_blocked_until_boot_sync_done() {
    let ring = Ring::new(4);
    let parts = Parts::new(&ring);
    let signer = RingSigner { ring: &ring, idx: 0 };
    let pending = RecordingPending::with_blobs(vec![sample_blob(0x01)], false);
    let ctx = parts.ctx(&signer, &pending);
    let mut book = VertexBook::new(ring.id(0));
    let cfg = Config::default_table_17_1();
    let actions = genesis_propose(&mut book, &cfg, &ctx).unwrap();
    let proposal = proposal_in(&actions).expect("proposal");
    assert!(proposal.vertex.blobs.is_empty());
}

#[test]
fn confirm_attached_called_after_propose() {
    let ring = Ring::new(4);
    let parts = Parts::new(&ring);
    let signer = RingSigner { ring: &ring, idx: 0 };
    let blob = sample_blob(0x02);
    let pending = RecordingPending::with_blobs(vec![blob], true);
    let ctx = parts.ctx(&signer, &pending);
    let mut book = VertexBook::new(ring.id(0));
    let cfg = Config::default_table_17_1();
    let actions = genesis_propose(&mut book, &cfg, &ctx).unwrap();
    let proposal = proposal_in(&actions).expect("proposal");
    assert_eq!(proposal.vertex.blobs.len(), 1);
    let log = pending.confirm_log.lock().expect("lock");
    assert_eq!(log.len(), 1);
    assert_eq!(log[0], vec![blob.blob_id]);
}

#[test]
fn own_proposal_carries_the_given_blobs_and_verifies() {
    let ring = Ring::new(4);
    let signer = RingSigner { ring: &ring, idx: 0 };
    let blobs = vec![sample_blob(0x05), sample_blob(0x06)];
    let pr = build_own_proposal(ring.id(0), Round(0), Vec::new(), &blobs, &signer);
    assert_eq!(pr.vertex.blobs, blobs);
    assert_eq!(pr.vertex.round, Round(0));
    assert_eq!(pr.vertex.author, ring.id(0));
    let mut resealed = Vertex {
        round: pr.vertex.round,
        author: pr.vertex.author,
        parents: pr.vertex.parents.clone(),
        blobs: pr.vertex.blobs.clone(),
        hash: Hash32::zero(),
    };
    seal_hash(&mut resealed);
    assert_eq!(resealed.hash, pr.vertex.hash);
    assert!(verify_proposal(&ring.set, &pr));
}
