use blst::min_pk::SecretKey;
use consensus::action::{Action, Actions};
use consensus::api::tier::BlobStatus;
use consensus::config::Config;
use consensus::crypto::Dst;
use consensus::error::Result;
use consensus::event::{BlsPartial, SubnetId};
use consensus::host_context::HostContext;
use consensus::lock_macro::LockMacro;
use consensus::macro_fin::book::MacroBook;
use consensus::macro_fin::checkpoint::build;
use consensus::macro_fin::macro_qc::try_finalize_mode0;
use consensus::macro_fin::messages::{checkpoint_message, proposer_message};
use consensus::macro_fin::proposer::ProposerSchedule;
use consensus::macro_fin::support::{note_inactivity_leak_on_adoption, signers_of};
use consensus::macro_fin::{on_bls_partial, on_local_micro_qcs, on_macro_proposal, on_macro_qc_received, probe_inactivity_leak_streak, receive_macro_qc};
use consensus::macro_fin::assemble::{absorb_partial, absorb_subnet_aggregate};
use consensus::macro_fin::two_chain::TwoChainRule;
use consensus::macro_fin::vote::decide_macro_proposal;
use consensus::macro_fin::fired::{backup_takeover_step, mode_b_partial_step};
use consensus::macro_fin::announce_window;
use consensus::ports::{Clock, DagView, NoPendingBlobs, Persistence, RandomnessBeacon, SignerPort, ValidatorSetPort};
use consensus::types::crypto_types::{BlsAggSig, BlsPubkey, BlsSig, Hash32, VrfProof, VrfPubkey};
use consensus::types::dag::CertifiedVertex;
use consensus::types::macros::{AggregationMode, MacroCheckpoint, MacroProposal, MacroQc};
use consensus::types::micro::MicroQc;
use consensus::types::primitives::{Epoch, Height, Round, StakeWeight, ValidatorId};
use consensus::types::slashing::SlashEvidence;
use consensus::types::validator::{ValidatorEntry, ValidatorIdentity, ValidatorSet};

struct KeyRing {
    sks: Vec<SecretKey>,
}

struct TestSigner<'a> {
    ring: &'a KeyRing,
    index: usize,
}

impl SignerPort for TestSigner<'_> {
    fn spec_sign(&self, _dst: vstd::seq::Seq<u8>, _msg: vstd::seq::Seq<u8>) -> BlsSig {
        unreachable!()
    }

    fn sign_bls(&self, dst: &[u8], msg: &[u8]) -> BlsSig {
        BlsSig(self.ring.sks[self.index].sign(msg, dst, &[]).to_bytes())
    }

    fn vrf_prove(&self, _alpha: &[u8]) -> Result<(VrfProof, Hash32)> {
        Ok((VrfProof([0; 80]), Hash32([0; 32])))
    }
}

struct StaticSet(ValidatorSet);

impl ValidatorSetPort for StaticSet {
    fn spec_set_for(&self, _epoch: Epoch) -> Option<ValidatorSet> {
        Some(self.0.clone())
    }

    fn set_for(&self, _epoch: Epoch) -> Result<Option<ValidatorSet>> {
        Ok(Some(self.0.clone()))
    }

    fn index_of(&self, _epoch: Epoch, v: &ValidatorId) -> Result<Option<u32>> {
        Ok(self.0.entries.iter().position(|x| &x.id == v).map(|i| u32::try_from(i).unwrap()))
    }
}

struct EmptyDag;

impl DagView for EmptyDag {
    fn spec_vertex(&self, _h: Hash32) -> Option<CertifiedVertex> {
        None
    }

    fn spec_vertices_at_round(&self, _r: Round) -> vstd::seq::Seq<CertifiedVertex> {
        unreachable!()
    }

    fn vertex(&self, _h: &Hash32) -> Result<Option<CertifiedVertex>> {
        Ok(None)
    }

    fn vertices_at_round(&self, _r: Round) -> Result<Vec<CertifiedVertex>> {
        Ok(vec![])
    }
}

struct FixedClock;

impl Clock for FixedClock {
    fn now_nanos(&self) -> u128 {
        0
    }
}

struct ZeroBeacon;

impl RandomnessBeacon for ZeroBeacon {
    fn spec_current(&self) -> Hash32 {
        Hash32([0; 32])
    }

    fn current(&self) -> Result<Hash32> {
        Ok(Hash32([0; 32]))
    }
}

struct NoopPersistence;

impl Persistence for NoopPersistence {
    fn store_micro_qc(&self, _qc: &MicroQc) -> Result<()> {
        Ok(())
    }
    fn micro_qc_for(&self, _h: &Hash32) -> Result<Option<MicroQc>> {
        Ok(None)
    }
    fn store_macro_checkpoint(&self, _cp: &MacroCheckpoint) -> Result<()> {
        Ok(())
    }
    fn store_macro_qc(&self, _qc: &MacroQc) -> Result<()> {
        Ok(())
    }
    fn append_slash_evidence(&self, _e: &SlashEvidence) -> Result<()> {
        Ok(())
    }
    fn macro_checkpoint_at(&self, _h: Height) -> Result<Option<MacroCheckpoint>> {
        Ok(None)
    }
    fn macro_qc_for(&self, _h: &Hash32) -> Result<Option<MacroQc>> {
        Ok(None)
    }
}

struct Harness {
    keys: KeyRing,
    valset: StaticSet,
    dag: EmptyDag,
    clock: FixedClock,
    beacon: ZeroBeacon,
    persistence: NoopPersistence,
    pending: NoPendingBlobs,
}

impl Harness {
    fn new(n: u8) -> Self {
        let sks: Vec<SecretKey> = (0..n).map(|i| SecretKey::key_gen(&[i + 1; 32], &[]).unwrap()).collect();
        let entries = (0..n)
            .map(|i| ValidatorEntry {
                id: ValidatorId([i; 32]),
                bls_pubkey: BlsPubkey(sks[i as usize].sk_to_pk().to_bytes()),
                vrf_pubkey: VrfPubkey([0; 32]),
                stake: StakeWeight(1),
                identity: ValidatorIdentity { asn: None, cloud: None, region: None },
            })
            .collect();
        let set = ValidatorSet { epoch: Epoch(0), entries, total_stake: StakeWeight(u64::from(n)) };
        Harness {
            keys: KeyRing { sks },
            valset: StaticSet(set),
            dag: EmptyDag,
            clock: FixedClock,
            beacon: ZeroBeacon,
            persistence: NoopPersistence,
            pending: NoPendingBlobs,
        }
    }

    fn set(&self) -> &ValidatorSet {
        &self.valset.0
    }

    fn signer(&self, index: usize) -> TestSigner<'_> {
        TestSigner { ring: &self.keys, index }
    }

    fn ctx<'a>(&'a self, signer: &'a TestSigner<'a>) -> HostContext<'a> {
        HostContext {
            dag: &self.dag,
            clock: &self.clock,
            valset: &self.valset,
            beacon: &self.beacon,
            persistence: &self.persistence,
            signer,
            pending_blobs: &self.pending,
        }
    }

    fn proposal(&self, proposer_idx: usize, cp: &MacroCheckpoint) -> MacroProposal {
        let proposer = self.set().entries[proposer_idx].id;
        let signer = self.signer(proposer_idx);
        let msg = proposer_message(&proposer, cp);
        MacroProposal {
            checkpoint: *cp,
            proposer,
            vrf_proof: VrfProof([0; 80]),
            proposer_sig: signer.sign_bls(&Dst::MacroProposerSig.to_vec(), &msg),
        }
    }

    fn partial(&self, idx: usize, cp: &MacroCheckpoint) -> BlsSig {
        let msg = checkpoint_message(cp);
        self.signer(idx).sign_bls(&Dst::MacroCheckpoint.to_vec(), &msg)
    }
}

fn fake_micro_qc(byte: u8) -> MicroQc {
    MicroQc { checkpoint_hash: Hash32([byte; 32]), agg: BlsAggSig { sig: BlsSig([0xAB; 96]), bitmap: vec![0xFF] } }
}

fn fill_ring(book: &mut MacroBook, cfg: &Config, ctx: &HostContext) {
    for i in 0..cfg.macro_fin.macro_window_w {
        let mut actions = Actions::new();
        actions.push(Action::BroadcastMicroQc(fake_micro_qc(u8::try_from(i).expect("macro_window_w fits u8") + 1)));
        on_local_micro_qcs(book, cfg, ctx, &mut actions).unwrap();
    }
}

fn index_of(set: &ValidatorSet, id: ValidatorId) -> usize {
    set.entries.iter().position(|e| e.id == id).unwrap()
}

#[test]
fn ring_fills_then_primary_emits_proposal() {
    let harness = Harness::new(4);
    let set = harness.set().clone();
    let primary_id = ProposerSchedule::round_robin(&set, Height(0)).primary;
    let primary_idx = index_of(&set, primary_id);
    let mut book = MacroBook::new(primary_id);
    let cfg = Config::default_table_17_1();
    let signer = harness.signer(primary_idx);
    let ctx = harness.ctx(&signer);

    for i in 0..cfg.macro_fin.macro_window_w {
        let mut actions = Actions::new();
        actions.push(Action::BroadcastMicroQc(fake_micro_qc(u8::try_from(i).expect("macro_window_w fits u8") + 1)));
        on_local_micro_qcs(&mut book, &cfg, &ctx, &mut actions).unwrap();
        if (i as usize) + 1 < cfg.macro_fin.macro_window_w as usize {
            assert_eq!(actions.len(), 1, "no proposal yet at wave {i}");
        } else {
            assert!(
                actions.iter().any(|a| matches!(a, Action::BroadcastMacroProposal(_))),
                "primary emits proposal at wave {i}"
            );
        }
    }
    assert_eq!(book.micro_ring.len(), 0);
    assert_eq!(book.candidate.len(), 1);
}

#[test]
fn non_primary_validator_does_not_emit_proposal() {
    let harness = Harness::new(4);
    let not_primary = harness.set().entries[2].id;
    let mut book = MacroBook::new(not_primary);
    let cfg = Config::default_table_17_1();
    let signer = harness.signer(2);
    let ctx = harness.ctx(&signer);

    for i in 0..cfg.macro_fin.macro_window_w {
        let mut actions = Actions::new();
        actions.push(Action::BroadcastMicroQc(fake_micro_qc(u8::try_from(i).expect("macro_window_w fits u8") + 1)));
        on_local_micro_qcs(&mut book, &cfg, &ctx, &mut actions).unwrap();
        assert!(
            !actions.iter().any(|a| matches!(a, Action::BroadcastMacroProposal(_))),
            "non-primary never emits a proposal at wave {i}"
        );
    }
    assert_eq!(book.candidate.len(), 1, "candidate still built locally");
}

#[test]
fn micro_qc_free_batch_leaves_book_alone() {
    let harness = Harness::new(4);
    let mut book = MacroBook::new(harness.set().entries[0].id);
    let cfg = Config::default_table_17_1();
    let signer = harness.signer(0);
    let ctx = harness.ctx(&signer);
    let mut actions = Actions::new();
    actions.push(Action::CancelTimer(consensus::event::TimerId(3)));
    on_local_micro_qcs(&mut book, &cfg, &ctx, &mut actions).unwrap();
    assert_eq!(actions.len(), 1);
    assert_eq!(book.micro_ring.len(), 0);
}

#[test]
fn proposal_from_correct_primary_emits_partial_and_soft_confirmed() {
    let harness = Harness::new(4);
    let set = harness.set().clone();
    let voter = set.entries[2].id;
    let mut book = MacroBook::new(voter);
    let cfg = Config::default_table_17_1();
    let signer = harness.signer(2);
    let ctx = harness.ctx(&signer);
    fill_ring(&mut book, &cfg, &ctx);
    let candidate = book.candidate.get(&Height(0)).unwrap();
    let proposer = ProposerSchedule::round_robin(&set, Height(0)).primary;
    let proposal = harness.proposal(index_of(&set, proposer), &candidate);
    let actions = on_macro_proposal(&mut book, &cfg, proposal, &ctx).unwrap();
    assert!(actions.iter().any(|a| matches!(a, Action::BroadcastBlsPartial(_))));
    assert!(actions.iter().any(|a| matches!(a, Action::UpdateBlobStatus { status: BlobStatus::SoftConfirmed, .. })));
    assert_eq!(book.locks.get(&voter), Some((Height(0), candidate.hash)));
}

#[test]
fn proposal_from_wrong_proposer_is_dropped() {
    let harness = Harness::new(4);
    let set = harness.set().clone();
    let voter = set.entries[1].id;
    let mut book = MacroBook::new(voter);
    let cfg = Config::default_table_17_1();
    let signer = harness.signer(1);
    let ctx = harness.ctx(&signer);
    fill_ring(&mut book, &cfg, &ctx);
    let candidate = book.candidate.get(&Height(0)).unwrap();
    let schedule = ProposerSchedule::round_robin(&set, Height(0));
    let wrong = set
        .entries
        .iter()
        .position(|e| e.id != schedule.primary && e.id != schedule.backup)
        .expect("non-proposer exists for n=4");
    let proposal = harness.proposal(wrong, &candidate);
    let actions = on_macro_proposal(&mut book, &cfg, proposal, &ctx).unwrap();
    assert!(actions.is_empty());
}

#[test]
fn lock_macro_collision_blocks_a_second_vote_at_same_height() {
    let v = ValidatorId([0xAA; 32]);
    let mut lm = LockMacro::new();
    lm.try_lock(v, Height(0), Hash32([1; 32])).unwrap();
    let err = lm.try_lock(v, Height(0), Hash32([2; 32])).expect_err("conflicting hash must be rejected");
    assert!(err.contains("conflicting"));
}

#[test]
fn bls_partial_threshold_emits_macro_qc_and_justified() {
    let harness = Harness::new(4);
    let set = harness.set().clone();
    let voter = set.entries[0].id;
    let mut book = MacroBook::new(voter);
    let cfg = Config::default_table_17_1();
    let signer = harness.signer(0);
    let ctx = harness.ctx(&signer);
    fill_ring(&mut book, &cfg, &ctx);
    let candidate = book.candidate.get(&Height(0)).unwrap();
    let proposer = ProposerSchedule::round_robin(&set, Height(0)).primary;
    let proposal = harness.proposal(index_of(&set, proposer), &candidate);
    let _ = on_macro_proposal(&mut book, &cfg, proposal, &ctx).unwrap();
    let mut threshold_actions = None;
    for idx in [0usize, 2, 3] {
        let v = set.entries[idx].id;
        let bp = BlsPartial { subnet: SubnetId(0), validator: v, checkpoint_hash: candidate.hash, sig: harness.partial(idx, &candidate) };
        let actions = on_bls_partial(&mut book, &cfg, bp, &ctx).unwrap();
        if actions.iter().any(|a| matches!(a, Action::BroadcastMacroQc(_))) {
            threshold_actions = Some(actions);
            break;
        }
    }
    let actions = threshold_actions.expect("threshold met at 2f+1 signers");
    let has_qc = actions.iter().any(|a| matches!(a, Action::BroadcastMacroQc(_)));
    let has_persist_cp = actions.iter().any(|a| matches!(a, Action::PersistMacroCheckpoint(_)));
    let has_persist_qc = actions.iter().any(|a| matches!(a, Action::PersistMacroQc(_)));
    let has_justified = actions.iter().any(|a| matches!(a, Action::UpdateBlobStatus { status: BlobStatus::Justified, .. }));
    assert!(has_qc && has_persist_cp && has_persist_qc && has_justified);
    assert_eq!(book.next_height, Height(1));
    assert_eq!(book.last_macro_hash, candidate.hash);
    assert_eq!(book.emitted_macro_qc_count(), 1);
}

#[test]
fn bls_partial_below_threshold_is_silent() {
    let harness = Harness::new(4);
    let set = harness.set().clone();
    let voter = set.entries[1].id;
    let mut book = MacroBook::new(voter);
    let cfg = Config::default_table_17_1();
    let signer = harness.signer(1);
    let ctx = harness.ctx(&signer);
    fill_ring(&mut book, &cfg, &ctx);
    let candidate = book.candidate.get(&Height(0)).unwrap();
    let bp = BlsPartial { subnet: SubnetId(0), validator: set.entries[0].id, checkpoint_hash: candidate.hash, sig: harness.partial(0, &candidate) };
    let actions = on_bls_partial(&mut book, &cfg, bp, &ctx).unwrap();
    assert!(actions.is_empty());
}

#[test]
fn forged_bls_partial_is_counted_and_dropped() {
    let harness = Harness::new(4);
    let set = harness.set().clone();
    let mut book = MacroBook::new(set.entries[1].id);
    let cfg = Config::default_table_17_1();
    let signer = harness.signer(1);
    let ctx = harness.ctx(&signer);
    fill_ring(&mut book, &cfg, &ctx);
    let candidate = book.candidate.get(&Height(0)).unwrap();
    let bp = BlsPartial { subnet: SubnetId(0), validator: set.entries[0].id, checkpoint_hash: candidate.hash, sig: harness.partial(2, &candidate) };
    let actions = on_bls_partial(&mut book, &cfg, bp, &ctx).unwrap();
    assert!(actions.is_empty());
    assert_eq!(book.rejected_crypto(), 1);
}

#[test]
fn bls_partial_unknown_subnet_or_hash_ignored() {
    let harness = Harness::new(4);
    let set = harness.set().clone();
    let voter = set.entries[1].id;
    let mut book = MacroBook::new(voter);
    let cfg = Config::default_table_17_1();
    let signer = harness.signer(1);
    let ctx = harness.ctx(&signer);

    let bp = BlsPartial { subnet: SubnetId(7), validator: set.entries[0].id, checkpoint_hash: Hash32([1; 32]), sig: BlsSig([0; 96]) };
    let actions = on_bls_partial(&mut book, &cfg, bp, &ctx).unwrap();
    assert!(actions.is_empty());

    let bp = BlsPartial { subnet: SubnetId(0), validator: set.entries[0].id, checkpoint_hash: Hash32([0xFF; 32]), sig: BlsSig([0; 96]) };
    let actions = on_bls_partial(&mut book, &cfg, bp, &ctx).unwrap();
    assert!(actions.is_empty());
}

#[test]
fn macro_qc_received_idempotent_after_local_emit() {
    let harness = Harness::new(4);
    let set = harness.set().clone();
    let voter = set.entries[0].id;
    let mut book = MacroBook::new(voter);
    let cfg = Config::default_table_17_1();
    let signer = harness.signer(0);
    let ctx = harness.ctx(&signer);
    fill_ring(&mut book, &cfg, &ctx);
    let candidate = book.candidate.get(&Height(0)).unwrap();
    let proposer = ProposerSchedule::round_robin(&set, Height(0)).primary;
    let proposal = harness.proposal(index_of(&set, proposer), &candidate);
    let _ = on_macro_proposal(&mut book, &cfg, proposal, &ctx).unwrap();
    for idx in [0usize, 2, 3] {
        let v = set.entries[idx].id;
        let bp = BlsPartial { subnet: SubnetId(0), validator: v, checkpoint_hash: candidate.hash, sig: harness.partial(idx, &candidate) };
        let _ = on_bls_partial(&mut book, &cfg, bp, &ctx).unwrap();
    }
    let signers = signers_of(&book, &candidate.hash);
    let qc = try_finalize_mode0(candidate.hash, &signers, &book.partial_sigs, &set, &candidate).expect("qc from partials");
    let actions = on_macro_qc_received(&mut book, &cfg, qc, &ctx).unwrap();
    assert!(actions.is_empty());
}

#[test]
fn macro_qc_received_from_peer_is_adopted() {
    let harness = Harness::new(4);
    let set = harness.set().clone();
    let mut book = MacroBook::new(set.entries[3].id);
    let cfg = Config::default_table_17_1();
    let signer = harness.signer(3);
    let ctx = harness.ctx(&signer);
    fill_ring(&mut book, &cfg, &ctx);
    let candidate = book.candidate.get(&Height(0)).unwrap();
    let mut sigs_book = MacroBook::new(set.entries[0].id);
    for idx in [0usize, 1, 2] {
        sigs_book.partial_sigs.insert((candidate.hash, set.entries[idx].id), harness.partial(idx, &candidate));
        sigs_book.partials.insert((candidate.hash, set.entries[idx].id));
    }
    let signers = signers_of(&sigs_book, &candidate.hash);
    let qc = try_finalize_mode0(candidate.hash, &signers, &sigs_book.partial_sigs, &set, &candidate).expect("qc");
    let actions = on_macro_qc_received(&mut book, &cfg, qc, &ctx).unwrap();
    assert!(matches!(actions[0], Action::PersistMacroCheckpoint(cp) if cp == candidate));
    assert!(matches!(&actions[1], Action::PersistMacroQc(q) if q.checkpoint_hash == candidate.hash));
    assert_eq!(book.next_height, Height(1));
    assert_eq!(book.last_macro_hash, candidate.hash);
}

#[test]
fn macro_qc_received_for_unknown_height_dropped() {
    let voter = ValidatorId([9; 32]);
    let mut book = MacroBook::new(voter);
    let cfg = Config::default_table_17_1();
    let harness = Harness::new(4);
    let signer = harness.signer(0);
    let ctx = harness.ctx(&signer);
    let qc = MacroQc {
        checkpoint_hash: Hash32([0x42; 32]),
        mode: AggregationMode::Mode0Flat,
        agg: BlsAggSig { sig: BlsSig([0xCD; 96]), bitmap: vec![] },
    };
    let actions = on_macro_qc_received(&mut book, &cfg, qc, &ctx).unwrap();
    assert!(actions.is_empty());
}

#[test]
fn inactivity_leak_emits_after_four_unfinalized_windows() {
    let cfg = Config::default_table_17_1();
    let mut book = MacroBook::new(ValidatorId([0; 32]));
    let mut actions = Actions::new();

    for i in 0..4u64 {
        let height = Height(i);
        let parent = if i == 0 { Hash32::zero() } else { Hash32([0x99; 32]) };
        let cp = build(height, Epoch(0), parent, Hash32([i as u8 + 1; 32]));
        book.candidate.insert(height, cp);
        book.two_chain.adopt(cp);
        let finalized = book.two_chain.newly_finalized_height().is_some();
        note_inactivity_leak_on_adoption(&mut book, &cfg, &mut actions, finalized);
        if let Some(prev) = book.two_chain.newly_finalized_height() {
            book.two_chain.mark_finalized(prev);
        }
    }

    let leaks: Vec<_> = actions.iter().filter(|a| matches!(a, Action::NotifyInactivityLeak { .. })).collect();
    assert_eq!(leaks.len(), 1);
    assert!(matches!(leaks[0], Action::NotifyInactivityLeak { windows: 4, bps_per_window: 50 }));
    assert!(probe_inactivity_leak_streak(&cfg));
    let mut late = Config::default_table_17_1();
    late.macro_fin.inactivity_leak_trigger_windows = 5;
    assert!(!probe_inactivity_leak_streak(&late));
}

#[test]
fn inactivity_leak_resets_on_finalization() {
    let cfg = Config::default_table_17_1();
    let mut book = MacroBook::new(ValidatorId([0; 32]));
    let mut actions = Actions::new();
    book.unfinalized_windows = 4;
    book.leak_notified = true;

    note_inactivity_leak_on_adoption(&mut book, &cfg, &mut actions, true);

    assert_eq!(book.unfinalized_windows, 0);
    assert!(!book.leak_notified);
    assert!(actions.is_empty());
}

#[test]
fn decide_unsigned_proposal_counts_rejected_crypto() {
    let harness = Harness::new(4);
    let signer = harness.signer(1);
    let mut book = MacroBook::new(ValidatorId([1; 32]));
    let cfg = Config::default_table_17_1();
    let empty = ValidatorSet { epoch: Epoch(0), entries: vec![], total_stake: StakeWeight(0) };
    let p = MacroProposal {
        checkpoint: build(Height(0), Epoch(0), Hash32::zero(), Hash32([1; 32])),
        proposer: ValidatorId([0xEE; 32]),
        vrf_proof: VrfProof([0; 80]),
        proposer_sig: BlsSig([0; 96]),
    };
    let actions = decide_macro_proposal(&mut book, &cfg, &empty, &Hash32::zero(), p, &signer);
    assert!(actions.is_empty());
    assert_eq!(book.rejected_crypto(), 1);
    assert!(book.proposals_seen.is_empty());
    assert_eq!(book.locks.get(&ValidatorId([1; 32])), None);
    assert_eq!(book.partial_sigs.len(), 0);
}

#[test]
fn decide_second_conflicting_proposal_yields_equivocation() {
    let harness = Harness::new(4);
    let set = harness.set().clone();
    let voter = set.entries[2].id;
    let mut book = MacroBook::new(voter);
    let cfg = Config::default_table_17_1();
    let signer = harness.signer(2);
    let ctx = harness.ctx(&signer);
    fill_ring(&mut book, &cfg, &ctx);
    let candidate = book.candidate.get(&Height(0)).unwrap();
    let proposer_idx = index_of(&set, ProposerSchedule::round_robin(&set, Height(0)).primary);
    let first = harness.proposal(proposer_idx, &candidate);
    let other = build(Height(0), Epoch(0), Hash32::zero(), Hash32([0x77; 32]));
    let second = harness.proposal(proposer_idx, &other);
    let a1 = decide_macro_proposal(&mut book, &cfg, &set, &Hash32::zero(), first, &signer);
    assert!(a1.iter().any(|a| matches!(a, Action::BroadcastBlsPartial(_))));
    let a2 = decide_macro_proposal(&mut book, &cfg, &set, &Hash32::zero(), second, &signer);
    assert_eq!(a2.len(), 1);
    match &a2[0] {
        Action::EmitSlashEvidence { offender, evidence: SlashEvidence::MacroEquivocation(ev) } => {
            assert_eq!(*offender, set.entries[proposer_idx].id);
            assert_eq!(ev.a.0, candidate);
            assert_eq!(ev.b.0, other);
        }
        a => panic!("unexpected action {a:?}"),
    }
    assert_eq!(book.proposals_seen.len(), 1);
}

#[test]
fn decide_proposal_blocked_by_lock_counts_suppressed() {
    let harness = Harness::new(4);
    let set = harness.set().clone();
    let voter = set.entries[2].id;
    let mut book = MacroBook::new(voter);
    let cfg = Config::default_table_17_1();
    let signer = harness.signer(2);
    let ctx = harness.ctx(&signer);
    fill_ring(&mut book, &cfg, &ctx);
    let candidate = book.candidate.get(&Height(0)).unwrap();
    book.locks.try_lock(voter, Height(0), Hash32([0x55; 32])).unwrap();
    let proposer_idx = index_of(&set, ProposerSchedule::round_robin(&set, Height(0)).primary);
    let p = harness.proposal(proposer_idx, &candidate);
    let actions = decide_macro_proposal(&mut book, &cfg, &set, &Hash32::zero(), p, &signer);
    assert!(actions.is_empty());
    assert_eq!(book.suppressed_conflicts(), 1);
    assert_eq!(book.locks.get(&voter), Some((Height(0), Hash32([0x55; 32]))));
    assert_eq!(book.partial_sigs.len(), 0);
    assert_eq!(book.proposals_seen.len(), 1);
}

#[test]
fn absorb_partial_after_adoption_only_stores_signature() {
    let harness = Harness::new(4);
    let set = harness.set().clone();
    let voter = set.entries[0].id;
    let mut book = MacroBook::new(voter);
    let cfg = Config::default_table_17_1();
    let signer = harness.signer(0);
    let ctx = harness.ctx(&signer);
    fill_ring(&mut book, &cfg, &ctx);
    let candidate = book.candidate.get(&Height(0)).unwrap();
    for idx in [0usize, 2, 3] {
        let bp = BlsPartial { subnet: SubnetId(0), validator: set.entries[idx].id, checkpoint_hash: candidate.hash, sig: harness.partial(idx, &candidate) };
        let _ = absorb_partial(&mut book, &cfg, &set, &Hash32::zero(), bp);
    }
    assert_eq!(book.emitted_macro_qc_count(), 1);
    let next = book.next_height;
    let late = BlsPartial { subnet: SubnetId(0), validator: set.entries[1].id, checkpoint_hash: candidate.hash, sig: harness.partial(1, &candidate) };
    let actions = absorb_partial(&mut book, &cfg, &set, &Hash32::zero(), late);
    assert!(actions.is_empty());
    assert_eq!(book.next_height, next);
    assert_eq!(book.emitted_macro_qc_count(), 1);
    assert!(!book.partials.contains(&(candidate.hash, set.entries[1].id)));
    assert_eq!(book.partial_sigs.get(&(candidate.hash, set.entries[1].id)), Some(harness.partial(1, &candidate)));
}

#[test]
fn receive_forged_macro_qc_counts_rejected_crypto() {
    let harness = Harness::new(4);
    let set = harness.set().clone();
    let mut book = MacroBook::new(set.entries[3].id);
    let cfg = Config::default_table_17_1();
    let signer = harness.signer(3);
    let ctx = harness.ctx(&signer);
    fill_ring(&mut book, &cfg, &ctx);
    let candidate = book.candidate.get(&Height(0)).unwrap();
    let qc = MacroQc {
        checkpoint_hash: candidate.hash,
        mode: AggregationMode::Mode0Flat,
        agg: BlsAggSig { sig: BlsSig([0xCD; 96]), bitmap: vec![0x07] },
    };
    let actions = receive_macro_qc(&mut book, &cfg, &set, qc);
    assert!(actions.is_empty());
    assert_eq!(book.rejected_crypto(), 1);
    assert_eq!(book.next_height, Height(0));
}

#[test]
fn subnet_aggregate_for_unknown_checkpoint_is_ignored() {
    let harness = Harness::new(4);
    let set = harness.set().clone();
    let mut book = MacroBook::new(set.entries[0].id);
    let cfg = Config::default_table_17_1();
    let agg = consensus::event::SubnetAggregate {
        subnet: SubnetId(0),
        checkpoint_hash: Hash32([0x31; 32]),
        agg: BlsAggSig { sig: BlsSig([0; 96]), bitmap: vec![0x01] },
    };
    let actions = absorb_subnet_aggregate(&mut book, &cfg, &set, agg);
    assert!(actions.is_empty());
    assert_eq!(book.rejected_crypto(), 0);
    assert!(book.subnet_aggs.is_empty());
}

#[test]
fn adopting_checkpoint_then_child_finalizes_height_zero() {
    let mut rule = TwoChainRule::new();
    let c0 = build(Height(0), Epoch(0), Hash32::zero(), Hash32([1; 32]));
    let c1 = build(Height(1), Epoch(0), c0.hash, Hash32([2; 32]));
    rule.adopt(c0);
    assert_eq!(rule.newly_finalized_height(), None);
    rule.adopt(c1);
    assert_eq!(rule.newly_finalized_height(), Some(Height(0)));
}

#[test]
fn backup_takeover_step_proposes_only_as_backup() {
    let harness = Harness::new(4);
    let set = harness.set().clone();
    let schedule = ProposerSchedule::round_robin(&set, Height(0));
    let backup_idx = index_of(&set, schedule.backup);
    let cfg = Config::default_table_17_1();

    let signer = harness.signer(backup_idx);
    let ctx = harness.ctx(&signer);
    let mut book = MacroBook::new(schedule.backup);
    fill_ring(&mut book, &cfg, &ctx);
    let candidate = book.candidate.get(&Height(0)).unwrap();
    let mut actions = Actions::new();
    assert!(backup_takeover_step(&mut book, &set, Height(0), VrfProof([7; 80]), &signer, &mut actions));
    assert_eq!(actions.len(), 1);
    match &actions[0] {
        Action::BroadcastMacroProposal(p) => {
            assert_eq!(p.checkpoint, candidate);
            assert_eq!(p.proposer, schedule.backup);
            assert_eq!(p.vrf_proof, VrfProof([7; 80]));
        }
        a => panic!("unexpected action {a:?}"),
    }
    assert!(book.proposal_seen.contains(&Height(0)));
    let mut again = Actions::new();
    assert!(!backup_takeover_step(&mut book, &set, Height(0), VrfProof([7; 80]), &signer, &mut again));
    assert!(again.is_empty());

    let other_idx = (0..4).find(|&i| set.entries[i].id != schedule.backup).unwrap();
    let other_signer = harness.signer(other_idx);
    let other_ctx = harness.ctx(&other_signer);
    let mut other = MacroBook::new(set.entries[other_idx].id);
    fill_ring(&mut other, &cfg, &other_ctx);
    other.proposal_seen.clear();
    let mut none = Actions::new();
    assert!(!backup_takeover_step(&mut other, &set, Height(0), VrfProof([7; 80]), &other_signer, &mut none));
    assert!(none.is_empty());
}

#[test]
fn announce_window_primary_proposes_and_others_arm_timers() {
    let harness = Harness::new(4);
    let set = harness.set().clone();
    let cfg = Config::default_table_17_1();
    let schedule = ProposerSchedule::round_robin(&set, Height(0));
    let cp = build(Height(0), Epoch(0), Hash32::zero(), Hash32([3; 32]));

    let primary_idx = index_of(&set, schedule.primary);
    let signer = harness.signer(primary_idx);
    let mut book = MacroBook::new(schedule.primary);
    let mut actions = Actions::new();
    announce_window(&mut book, &cfg, &set, cp, Some(VrfProof([1; 80])), &signer, &mut actions);
    assert!(matches!(&actions[0], Action::BroadcastMacroProposal(p) if p.checkpoint == cp && p.proposer == schedule.primary));
    assert!(book.proposal_seen.contains(&Height(0)));
    assert!(actions[1..].iter().all(|a| matches!(a, Action::ScheduleTimer { .. })));

    let other_idx = (0..4).find(|&i| set.entries[i].id != schedule.primary && set.entries[i].id != schedule.backup).unwrap();
    let other_signer = harness.signer(other_idx);
    let mut other = MacroBook::new(set.entries[other_idx].id);
    let mut quiet = Actions::new();
    announce_window(&mut other, &cfg, &set, cp, None, &other_signer, &mut quiet);
    assert!(quiet.iter().all(|a| matches!(a, Action::ScheduleTimer { .. })));
    assert!(!other.proposal_seen.contains(&Height(0)));
}

#[test]
fn mode_b_partial_step_signs_on_subnet_zero_outside_mode_a() {
    let harness = Harness::new(4);
    let set = harness.set().clone();
    let cfg = Config::default_table_17_1();
    let cp = build(Height(0), Epoch(0), Hash32::zero(), Hash32([4; 32]));
    let signer = harness.signer(1);
    let me = set.entries[1].id;
    let mut book = MacroBook::new(me);
    let mut actions = Actions::new();
    mode_b_partial_step(&mut book, &cfg, &set, &Hash32::zero(), Height(0), cp, &signer, &mut actions);
    assert_eq!(actions.len(), 1);
    match &actions[0] {
        Action::BroadcastBlsPartial(bp) => {
            assert_eq!(bp.subnet, SubnetId(0));
            assert_eq!(bp.validator, me);
            assert_eq!(bp.checkpoint_hash, cp.hash);
            assert_eq!(bp.sig, harness.partial(1, &cp));
        }
        a => panic!("unexpected action {a:?}"),
    }
    assert!(book.partials.contains(&(cp.hash, me)));
}

#[test]
fn qc_for_child_finalizes_parent_and_reports_it() {
    let harness = Harness::new(4);
    let set = harness.set().clone();
    let cfg = Config::default_table_17_1();
    let mut book = MacroBook::new(set.entries[3].id);
    let c0 = build(Height(0), Epoch(0), Hash32::zero(), Hash32([1; 32]));
    let c1 = build(Height(1), Epoch(0), c0.hash, Hash32([2; 32]));
    book.candidate.insert(Height(0), c0);
    book.candidate.insert(Height(1), c1);
    let qc_for = |cp: &MacroCheckpoint| {
        let mut sigs_book = MacroBook::new(set.entries[0].id);
        for idx in [0usize, 1, 2] {
            sigs_book.partial_sigs.insert((cp.hash, set.entries[idx].id), harness.partial(idx, cp));
            sigs_book.partials.insert((cp.hash, set.entries[idx].id));
        }
        let signers = signers_of(&sigs_book, &cp.hash);
        try_finalize_mode0(cp.hash, &signers, &sigs_book.partial_sigs, &set, cp).expect("qc")
    };
    let first = receive_macro_qc(&mut book, &cfg, &set, qc_for(&c0));
    assert_eq!(first.len(), 3);
    assert_eq!(book.two_chain.finalized_head, None);
    let second = receive_macro_qc(&mut book, &cfg, &set, qc_for(&c1));
    assert_eq!(second.len(), 4);
    assert!(matches!(second[3], Action::UpdateBlobStatus { status: BlobStatus::Finalized, .. }));
    assert_eq!(book.two_chain.finalized_head, Some(c0.hash));
    assert_eq!(book.two_chain.justified_head, Some(c1.hash));
    assert_eq!(book.unfinalized_windows, 0);
    assert_eq!(book.next_height, Height(2));
}

#[test]
fn closing_window_arms_mode_b_deadline_with_first_timer_id() {
    let harness = Harness::new(4);
    let set = harness.set().clone();
    let primary = ProposerSchedule::round_robin(&set, Height(0)).primary;
    let mut book = MacroBook::new(primary);
    let cfg = Config::default_table_17_1();
    let signer = harness.signer(index_of(&set, primary));
    let ctx = harness.ctx(&signer);
    let w = cfg.macro_fin.macro_window_w;
    for i in 0..w {
        let mut actions = Actions::new();
        actions.push(Action::BroadcastMicroQc(fake_micro_qc(u8::try_from(i).unwrap() + 1)));
        on_local_micro_qcs(&mut book, &cfg, &ctx, &mut actions).unwrap();
        if i + 1 < w {
            assert_eq!(actions.len(), 1);
        } else {
            assert_eq!(actions.len(), 3);
            assert!(matches!(&actions[1], Action::BroadcastMacroProposal(p) if p.proposer == primary && p.checkpoint.height == Height(0)));
            assert!(matches!(actions[2], Action::ScheduleTimer { id: consensus::event::TimerId(0), delay_nanos }
                if delay_nanos == u128::from(cfg.timing.t_macropropose_ms) * 2_000_000));
        }
    }
    assert_eq!(book.micro_ring.len(), 0);
}
