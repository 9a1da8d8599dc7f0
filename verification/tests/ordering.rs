use consensus::bullshark::commit::{try_commit_wave, count_supporters, vertex_reaches, CommitPath};
use consensus::bullshark::linearize::{checkpoint_hash_from_linearization, sort_hashes, Linearization};
use consensus::bullshark::micro_qc::EmittedSet;
use consensus::bullshark::wave::WaveId;
use consensus::config::Config;
use consensus::dag::seal_hash;
use consensus::error::Result;
use consensus::l2_minimal::{linearize_wave_sorted, validators_in_wave, wave_ready_to_commit};
use consensus::ports::DagView;
use consensus::action::Action;
use consensus::bullshark::linearize::checkpoint_hash_from_rounds;
use consensus::bullshark::micro_qc::try_finalize as try_finalize_micro_qc;
use consensus::host_context::HostContext;
use consensus::l2_minimal::book::Book;
use consensus::l2_minimal::on_certified_vertex as l2_on_certified_vertex;
use consensus::ports::{Clock, NoPendingBlobs, Persistence, RandomnessBeacon, SignerPort, ValidatorSetPort};
use consensus::types::crypto_types::{BlsAggSig, BlsPubkey, BlsSig, Hash32, VrfProof, VrfPubkey};
use consensus::types::macros::{MacroCheckpoint, MacroQc};
use consensus::types::micro::MicroQc;
use consensus::types::primitives::Height;
use consensus::types::slashing::SlashEvidence;
use consensus::types::dag::{CertifiedVertex, Vertex};
use consensus::types::primitives::{Epoch, Round, StakeWeight, ValidatorId};
use consensus::types::validator::{ValidatorEntry, ValidatorIdentity, ValidatorSet};

struct MapDag {
    vertices: Vec<CertifiedVertex>,
}

impl MapDag {
    fn new() -> Self {
        MapDag { vertices: Vec::new() }
    }

    fn add(&mut self, round: u64, author: u8, parents: Vec<Hash32>) -> Hash32 {
        let mut vertex = Vertex { round: Round(round), author: ValidatorId([author; 32]), parents, blobs: vec![], hash: Hash32::zero() };
        seal_hash(&mut vertex);
        let h = vertex.hash;
        self.vertices.push(CertifiedVertex { vertex, agg: BlsAggSig { sig: BlsSig([0; 96]), bitmap: vec![] } });
        h
    }

    fn find(&self, h: &Hash32) -> Option<CertifiedVertex> {
        self.vertices.iter().find(|cv| cv.vertex.hash == *h).map(|cv| cv.duplicate())
    }

    fn get(&self, h: &Hash32) -> CertifiedVertex {
        self.find(h).unwrap()
    }
}

impl DagView for MapDag {
    fn spec_vertex(&self, hash: Hash32) -> Option<CertifiedVertex> {
        self.find(&hash)
    }

    fn spec_vertices_at_round(&self, _round: Round) -> vstd::seq::Seq<CertifiedVertex> {
        unreachable!()
    }

    fn vertex(&self, hash: &Hash32) -> Result<Option<CertifiedVertex>> {
        Ok(self.find(hash))
    }

    fn vertices_at_round(&self, round: Round) -> Result<Vec<CertifiedVertex>> {
        Ok(self.vertices.iter().filter(|cv| cv.vertex.round == round).map(|cv| cv.duplicate()).collect())
    }
}

fn set_of(n: u8) -> ValidatorSet {
    let entries = (0..n)
        .map(|i| ValidatorEntry {
            id: ValidatorId([i; 32]),
            bls_pubkey: BlsPubkey([0; 48]),
            vrf_pubkey: VrfPubkey([0; 32]),
            stake: StakeWeight(1),
            identity: ValidatorIdentity { asn: None, cloud: None, region: None },
        })
        .collect();
    ValidatorSet { epoch: Epoch(0), entries, total_stake: StakeWeight(u64::from(n)) }
}

/// Round 0 holds one vertex per author; returns their hashes.
fn genesis_round(dag: &mut MapDag) -> Vec<Hash32> {
    (0..4u8).map(|a| dag.add(0, a, vec![])).collect()
}

#[test]
fn shortcut_commit_when_quorum_references_anchor() {
    let mut dag = MapDag::new();
    let r0 = genesis_round(&mut dag);
    for a in 1..4u8 {
        dag.add(1, a, r0.clone());
    }
    let cfg = Config::default_table_17_1();
    let set = set_of(4);
    let d = try_commit_wave(WaveId(0), &cfg, &set, ValidatorId([0; 32]), &dag, false).unwrap().expect("commit");
    assert_eq!(d.wave, WaveId(0));
    assert_eq!(d.path, CommitPath::Shortcut);
    assert_eq!(d.anchor_hash, r0[0]);
}

#[test]
fn slow_path_needs_the_timeout() {
    let mut dag = MapDag::new();
    let r0 = genesis_round(&mut dag);
    let others: Vec<Hash32> = r0[1..].to_vec();
    let r1: Vec<Hash32> = (1..4u8).map(|a| dag.add(1, a, others.clone())).collect();
    let _r2: Vec<Hash32> = (1..4u8).map(|a| dag.add(2, a, r1.clone())).collect();
    for a in 1..4u8 {
        dag.add(3, a, vec![r0[0]]);
    }
    let cfg = Config::default_table_17_1();
    let set = set_of(4);
    let anchor = ValidatorId([0; 32]);
    assert!(try_commit_wave(WaveId(0), &cfg, &set, anchor, &dag, false).unwrap().is_none());
    let d = try_commit_wave(WaveId(0), &cfg, &set, anchor, &dag, true).unwrap().expect("slow commit");
    assert_eq!(d.path, CommitPath::SlowPath);
    assert_eq!(d.anchor_hash, r0[0]);
}

#[test]
fn missing_anchor_vertex_commits_nothing() {
    let mut dag = MapDag::new();
    let r0: Vec<Hash32> = (1..4u8).map(|a| dag.add(0, a, vec![])).collect();
    for a in 1..4u8 {
        dag.add(1, a, r0.clone());
    }
    let cfg = Config::default_table_17_1();
    assert!(try_commit_wave(WaveId(0), &cfg, &set_of(4), ValidatorId([0; 32]), &dag, true).unwrap().is_none());
    let empty = ValidatorSet { epoch: Epoch(0), entries: vec![], total_stake: StakeWeight(0) };
    assert!(try_commit_wave(WaveId(0), &cfg, &empty, ValidatorId([1; 32]), &dag, true).unwrap().is_none());
}

#[test]
fn reachability_follows_parent_chains() {
    let mut dag = MapDag::new();
    let a = dag.add(0, 0, vec![]);
    let b = dag.add(0, 1, vec![]);
    let c = dag.add(1, 0, vec![a]);
    let d = dag.add(2, 0, vec![c]);
    assert!(vertex_reaches(&dag.get(&d), &a, &dag).unwrap());
    assert!(vertex_reaches(&dag.get(&d), &d, &dag).unwrap());
    assert!(!vertex_reaches(&dag.get(&d), &b, &dag).unwrap());
    let supporters = count_supporters(&a, Round(0), 2, &dag).unwrap();
    assert_eq!(supporters.len(), 1);
    assert!(supporters.contains(&ValidatorId([0; 32])));
}

#[test]
fn closure_starts_at_anchor_and_holds_its_ancestry_once() {
    let mut dag = MapDag::new();
    let a = dag.add(0, 0, vec![]);
    let b = dag.add(0, 1, vec![]);
    let _unrelated = dag.add(0, 2, vec![]);
    let c = dag.add(1, 0, vec![a, b]);
    let anchor = dag.add(2, 1, vec![c, a]);
    let lin = Linearization::closure_of_anchor(anchor, &dag).unwrap();
    assert_eq!(lin.order.len(), 4);
    assert_eq!(lin.order[0], anchor);
    for h in [a, b, c] {
        assert_eq!(lin.order.iter().filter(|x| **x == h).count(), 1);
    }
    let again = Linearization::closure_of_anchor(anchor, &dag).unwrap();
    assert_eq!(checkpoint_hash_from_linearization(&lin), checkpoint_hash_from_linearization(&again));
    let mut swapped = Linearization::default();
    swapped.order = lin.order.iter().rev().copied().collect();
    assert_ne!(checkpoint_hash_from_linearization(&lin), checkpoint_hash_from_linearization(&swapped));
}

#[test]
fn sort_hashes_orders_bytes_ascending() {
    let v = vec![Hash32([3; 32]), Hash32([1; 32]), Hash32([2; 32]), Hash32([1; 32])];
    assert_eq!(sort_hashes(&v), vec![Hash32([1; 32]), Hash32([1; 32]), Hash32([2; 32]), Hash32([3; 32])]);
}

#[test]
fn wave_is_ready_once_all_four_rounds_hold_a_vertex() {
    let mut dag = MapDag::new();
    dag.add(4, 2, vec![]);
    dag.add(4, 1, vec![]);
    dag.add(5, 0, vec![]);
    dag.add(6, 3, vec![]);
    assert!(!wave_ready_to_commit(1, &dag).unwrap());
    dag.add(7, 1, vec![]);
    assert!(wave_ready_to_commit(1, &dag).unwrap());
    let sorted = linearize_wave_sorted(1, &dag).unwrap();
    let keys: Vec<(u64, u8)> = sorted.iter().map(|cv| (cv.vertex.round.0, cv.vertex.author.0[0])).collect();
    assert_eq!(keys, vec![(4, 1), (4, 2), (5, 0), (6, 3), (7, 1)]);
    let authors = validators_in_wave(1, &dag).unwrap();
    assert_eq!(authors.len(), 4);
}

#[test]
fn emitted_set_records_each_hash_once() {
    let mut s = EmittedSet::new();
    assert!(s.is_empty());
    assert!(s.insert(Hash32([1; 32])));
    assert!(!s.insert(Hash32([1; 32])));
    assert!(s.contains(&Hash32([1; 32])));
    assert!(!s.contains(&Hash32([2; 32])));
    assert_eq!(s.len(), 1);
}

struct FixedSet(ValidatorSet);

impl ValidatorSetPort for FixedSet {
    fn spec_set_for(&self, _epoch: Epoch) -> Option<ValidatorSet> {
        Some(self.0.clone())
    }

    fn set_for(&self, _epoch: Epoch) -> Result<Option<ValidatorSet>> {
        Ok(Some(self.0.clone()))
    }

    fn index_of(&self, _epoch: Epoch, v: &ValidatorId) -> Result<Option<u32>> {
        Ok(self.0.entries.iter().position(|e| &e.id == v).map(|i| u32::try_from(i).unwrap()))
    }
}

struct ZeroClock;

impl Clock for ZeroClock {
    fn now_nanos(&self) -> u128 {
        0
    }
}

struct ZeroBeacon;

impl RandomnessBeacon for ZeroBeacon {
    fn spec_current(&self) -> Hash32 {
        Hash32([0; 32])
    }

    fn current(&self) -> Result<Hash32> {
        Ok(Hash32([0; 32]))
    }
}

struct NoopPersistence;

impl Persistence for NoopPersistence {
    fn store_micro_qc(&self, _qc: &MicroQc) -> Result<()> {
        Ok(())
    }
    fn micro_qc_for(&self, _h: &Hash32) -> Result<Option<MicroQc>> {
        Ok(None)
    }
    fn store_macro_checkpoint(&self, _cp: &MacroCheckpoint) -> Result<()> {
        Ok(())
    }
    fn store_macro_qc(&self, _qc: &MacroQc) -> Result<()> {
        Ok(())
    }
    fn append_slash_evidence(&self, _ev: &SlashEvidence) -> Result<()> {
        Ok(())
    }
    fn macro_checkpoint_at(&self, _h: Height) -> Result<Option<MacroCheckpoint>> {
        Ok(None)
    }
    fn macro_qc_for(&self, _h: &Hash32) -> Result<Option<MacroQc>> {
        Ok(None)
    }
}

struct ZeroSigner;

impl SignerPort for ZeroSigner {
    fn spec_sign(&self, _dst: vstd::seq::Seq<u8>, _msg: vstd::seq::Seq<u8>) -> BlsSig {
        unreachable!()
    }

    fn sign_bls(&self, _dst: &[u8], _msg: &[u8]) -> BlsSig {
        BlsSig([0; 96])
    }

    fn vrf_prove(&self, _alpha: &[u8]) -> Result<(VrfProof, Hash32)> {
        Ok((VrfProof([0; 80]), Hash32([0; 32])))
    }
}

struct Host {
    set: FixedSet,
    clock: ZeroClock,
    beacon: ZeroBeacon,
    persistence: NoopPersistence,
    signer: ZeroSigner,
    pending: NoPendingBlobs,
}

impl Host {
    fn new() -> Self {
        Host {
            set: FixedSet(set_of(4)),
            clock: ZeroClock,
            beacon: ZeroBeacon,
            persistence: NoopPersistence,
            signer: ZeroSigner,
            pending: NoPendingBlobs,
        }
    }

    fn ctx<'a>(&'a self, dag: &'a MapDag) -> HostContext<'a> {
        HostContext {
            dag,
            clock: &self.clock,
            valset: &self.set,
            beacon: &self.beacon,
            persistence: &self.persistence,
            signer: &self.signer,
            pending_blobs: &self.pending,
        }
    }
}

#[test]
fn full_wave_with_quorum_of_authors_emits_one_micro_qc() {
    let mut dag = MapDag::new();
    dag.add(4, 1, vec![]);
    dag.add(4, 0, vec![]);
    dag.add(5, 2, vec![]);
    dag.add(6, 0, vec![]);
    let last = dag.add(7, 1, vec![]);
    let host = Host::new();
    let ctx = host.ctx(&dag);
    let mut book = Book::default();
    let actions = l2_on_certified_vertex(&mut book, dag.get(&last), &ctx).unwrap();
    assert_eq!(actions.len(), 1);
    let Action::BroadcastMicroQc(qc) = &actions[0] else {
        panic!("expected a MicroQc, got {actions:?}");
    };
    let expected = checkpoint_hash_from_rounds(&linearize_wave_sorted(1, &dag).unwrap());
    assert_eq!(qc.checkpoint_hash, expected);
    assert_eq!(qc.agg.bitmap, vec![0b0000_0111]);
    let again = l2_on_certified_vertex(&mut book, dag.get(&last), &ctx).unwrap();
    assert!(again.is_empty());
}

#[test]
fn full_wave_below_quorum_emits_nothing() {
    let mut dag = MapDag::new();
    dag.add(4, 1, vec![]);
    dag.add(5, 0, vec![]);
    dag.add(6, 0, vec![]);
    let last = dag.add(7, 1, vec![]);
    let host = Host::new();
    let ctx = host.ctx(&dag);
    let mut book = Book::new();
    assert!(l2_on_certified_vertex(&mut book, dag.get(&last), &ctx).unwrap().is_empty());
}

#[test]
fn micro_qc_needs_a_quorum_of_distinct_authors() {
    let mut dag = MapDag::new();
    let hs: Vec<Hash32> = vec![dag.add(0, 0, vec![]), dag.add(0, 1, vec![]), dag.add(1, 0, vec![]), dag.add(1, 3, vec![])];
    let host = Host::new();
    let ctx = host.ctx(&dag);
    let three: Vec<CertifiedVertex> = hs.iter().map(|h| dag.get(h)).collect();
    let qc = try_finalize_micro_qc(Hash32([5; 32]), &three, &ctx).unwrap().expect("quorum of authors");
    assert_eq!(qc.checkpoint_hash, Hash32([5; 32]));
    assert_eq!(qc.agg.bitmap, vec![0b0000_1011]);
    let two: Vec<CertifiedVertex> = hs[..3].iter().map(|h| dag.get(h)).collect();
    assert!(try_finalize_micro_qc(Hash32([5; 32]), &two, &ctx).unwrap().is_none());
}
