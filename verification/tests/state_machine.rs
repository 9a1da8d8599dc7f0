use consensus::bitmap::{build_bitmap, count_ones, test_bit};
use consensus::config::Config;
use consensus::error::Result;
use consensus::event::{Event, TimerId};
use consensus::host_context::HostContext;
use consensus::ports::{Clock, DagView, NoPendingBlobs, Persistence, RandomnessBeacon, SignerPort, ValidatorSetPort};
use consensus::state_machine::StateMachine;
use consensus::types::crypto_types::{BlsAggSig, BlsPubkey, BlsSig, Hash32, VrfProof, VrfPubkey};
use consensus::types::dag::CertifiedVertex;
use consensus::types::macros::{AggregationMode, MacroCheckpoint, MacroQc};
use consensus::types::micro::MicroQc;
use consensus::types::primitives::{Epoch, Height, Round, StakeWeight, ValidatorId};
use consensus::types::slashing::{DoubleVote, SlashEvidence};
use consensus::types::validator::{ValidatorEntry, ValidatorIdentity, ValidatorSet};

struct EmptyDag;

impl DagView for EmptyDag {
    fn spec_vertex(&self, _hash: Hash32) -> Option<CertifiedVertex> {
        None
    }

    fn spec_vertices_at_round(&self, _round: Round) -> vstd::seq::Seq<CertifiedVertex> {
        unreachable!()
    }

    fn vertex(&self, _hash: &Hash32) -> Result<Option<CertifiedVertex>> {
        Ok(None)
    }

    fn vertices_at_round(&self, _round: Round) -> Result<Vec<CertifiedVertex>> {
        Ok(vec![])
    }
}

struct FixedBeacon(Hash32);

impl RandomnessBeacon for FixedBeacon {
    fn spec_current(&self) -> Hash32 {
        self.0
    }

    fn current(&self) -> Result<Hash32> {
        Ok(self.0)
    }
}

struct ZeroClock;

impl Clock for ZeroClock {
    fn now_nanos(&self) -> u128 {
        0
    }
}

struct OneSet(ValidatorSet);

impl ValidatorSetPort for OneSet {
    fn spec_set_for(&self, _epoch: Epoch) -> Option<ValidatorSet> {
        Some(self.0.clone())
    }

    fn set_for(&self, _epoch: Epoch) -> Result<Option<ValidatorSet>> {
        Ok(Some(self.0.clone()))
    }

    fn index_of(&self, _epoch: Epoch, v: &ValidatorId) -> Result<Option<u32>> {
        Ok(self.0.entries.iter().position(|e| &e.id == v).map(|i| u32::try_from(i).unwrap()))
    }
}

struct NoopPersistence;

impl Persistence for NoopPersistence {
    fn store_micro_qc(&self, _qc: &MicroQc) -> Result<()> {
        Ok(())
    }
    fn micro_qc_for(&self, _h: &Hash32) -> Result<Option<MicroQc>> {
        Ok(None)
    }
    fn store_macro_checkpoint(&self, _cp: &MacroCheckpoint) -> Result<()> {
        Ok(())
    }
    fn store_macro_qc(&self, _qc: &MacroQc) -> Result<()> {
        Ok(())
    }
    fn append_slash_evidence(&self, _ev: &SlashEvidence) -> Result<()> {
        Ok(())
    }
    fn macro_checkpoint_at(&self, _h: Height) -> Result<Option<MacroCheckpoint>> {
        Ok(None)
    }
    fn macro_qc_for(&self, _h: &Hash32) -> Result<Option<MacroQc>> {
        Ok(None)
    }
}

struct ZeroSigner;

impl SignerPort for ZeroSigner {
    fn spec_sign(&self, _dst: vstd::seq::Seq<u8>, _msg: vstd::seq::Seq<u8>) -> BlsSig {
        BlsSig([0; 96])
    }

    fn sign_bls(&self, _dst: &[u8], _msg: &[u8]) -> BlsSig {
        BlsSig([0; 96])
    }

    fn vrf_prove(&self, _alpha: &[u8]) -> Result<(VrfProof, Hash32)> {
        Ok((VrfProof([0; 80]), Hash32([0; 32])))
    }
}

struct Ports {
    dag: EmptyDag,
    clock: ZeroClock,
    valset: OneSet,
    beacon: FixedBeacon,
    persistence: NoopPersistence,
    signer: ZeroSigner,
    pending: NoPendingBlobs,
}

impl Ports {
    fn new() -> Self {
        let entry = ValidatorEntry {
            id: ValidatorId([0; 32]),
            bls_pubkey: BlsPubkey([0; 48]),
            vrf_pubkey: VrfPubkey([0; 32]),
            stake: StakeWeight(1),
            identity: ValidatorIdentity { asn: None, cloud: None, region: None },
        };
        Ports {
            dag: EmptyDag,
            clock: ZeroClock,
            valset: OneSet(ValidatorSet { epoch: Epoch(0), entries: vec![entry], total_stake: StakeWeight(1) }),
            beacon: FixedBeacon(Hash32([0; 32])),
            persistence: NoopPersistence,
            signer: ZeroSigner,
            pending: NoPendingBlobs,
        }
    }

    fn ctx(&self) -> HostContext<'_> {
        HostContext {
            dag: &self.dag,
            clock: &self.clock,
            valset: &self.valset,
            beacon: &self.beacon,
            persistence: &self.persistence,
            signer: &self.signer,
            pending_blobs: &self.pending,
        }
    }
}

#[test]
fn step_returns_empty_for_unknown_timer() {
    let mut sm = StateMachine::new(Config::default_table_17_1(), ValidatorId::default());
    let ports = Ports::new();
    let ctx = ports.ctx();
    let actions = sm.step(Event::TimerFired(TimerId(0)), &ctx).unwrap();
    assert!(actions.is_empty());
}

#[test]
fn step_is_total_over_event_enum() {
    let mut sm = StateMachine::new(Config::default_table_17_1(), ValidatorId::default());
    let ports = Ports::new();
    let ctx = ports.ctx();
    sm.step(Event::TimerFired(TimerId(0)), &ctx).unwrap();
}

#[test]
fn validator_set_update_and_evidence_produce_no_actions() {
    let mut sm = StateMachine::new(Config::default_table_17_1(), ValidatorId([3; 32]));
    let ports = Ports::new();
    let ctx = ports.ctx();
    let set = ports.valset.0.clone();
    assert!(sm.step(Event::ValidatorSetUpdated { epoch: Epoch(1), set }, &ctx).unwrap().is_empty());
    let ev = SlashEvidence::DoubleVote(DoubleVote {
        validator: ValidatorId([1; 32]),
        target: Epoch(1),
        a_checkpoint: Hash32([1; 32]),
        a_sig: BlsSig([0; 96]),
        b_checkpoint: Hash32([2; 32]),
        b_sig: BlsSig([0; 96]),
    });
    assert!(sm.step(Event::SlashEvidenceFound(ev), &ctx).unwrap().is_empty());
    assert_eq!(*sm.config(), Config::default_table_17_1());
}

#[test]
fn unknown_macro_qc_is_dropped_by_step() {
    let mut sm = StateMachine::new(Config::default_table_17_1(), ValidatorId([3; 32]));
    let ports = Ports::new();
    let ctx = ports.ctx();
    let qc = MacroQc {
        checkpoint_hash: Hash32([0x42; 32]),
        mode: AggregationMode::Mode0Flat,
        agg: BlsAggSig { sig: BlsSig([0xCD; 96]), bitmap: vec![] },
    };
    assert!(sm.step(Event::MacroQcReceived(qc), &ctx).unwrap().is_empty());
}

#[test]
fn _ensure_bitmap_link_exists() {
    let _b = build_bitmap(&vec![false; 8]);
}

#[test]
fn bitmap_sets_low_bit_first() {
    let b = build_bitmap(&vec![true, false, true, false, false, false, false, false, true]);
    assert_eq!(b, vec![0b0000_0101, 0b0000_0001]);
    assert!(test_bit(&b, 0));
    assert!(!test_bit(&b, 1));
    assert!(test_bit(&b, 8));
    assert!(!test_bit(&b, 100));
    assert_eq!(count_ones(&b), 3);
}

#[test]
fn panicking_signer_never_yields_a_usable_signature() {
    let s = consensus::ports::PanickingSigner::default();
    assert_eq!(s.sign_bls(b"dst", b"msg"), BlsSig([0; 96]));
    assert!(s.vrf_prove(b"alpha").is_err());
}
