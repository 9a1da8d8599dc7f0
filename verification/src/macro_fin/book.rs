//! In-memory macro-finality state and pure helpers.
use vstd::prelude::*;
use crate::crypto::{blake3_with_dst, digest_with_dst, Dst};
use crate::event::{SubnetAggregate, SubnetId};
use crate::lock_macro::LockMacro;
use crate::macro_fin::timer::MacroTimerBook;
use crate::macro_fin::two_chain::TwoChainRule;
use crate::macro_fin::vote_book::VoteBook;
use crate::table::{KeySet, Table};
use crate::types::crypto_types::{BlsSig, Hash32, zero32};
use crate::types::macros::{MacroCheckpoint, MacroProposal};
use crate::types::primitives::{Height, ValidatorId};

verus! {

/// Per-validator macro-finality state.
#[derive(Debug)]
pub struct MacroBook {
    /// Validator this book belongs to.
    pub self_id: ValidatorId,
    /// The last locally emitted MicroQc checkpoint hashes (at most `W`).
    pub micro_ring: Vec<Hash32>,
    /// Next macro height this validator proposes or votes on.
    pub next_height: Height,
    /// Hash of the most recently adopted checkpoint (parent of the next candidate).
    pub last_macro_hash: Hash32,
    /// Pending candidates by height.
    pub candidate: Table<Height, MacroCheckpoint>,
    /// `R_macro` frozen when the candidate at a height was built or first proposed.
    pub candidate_beacon: Table<Height, Hash32>,
    /// Partial signers: `(checkpoint_hash, signer)` pairs.
    pub partials: KeySet<(Hash32, ValidatorId)>,
    /// Checkpoint hashes this validator already adopted a MacroQc for.
    pub emitted_macro_qc: KeySet<Hash32>,
    /// 2-chain head and finality.
    pub two_chain: TwoChainRule,
    /// Lock tracker driven on every own partial.
    pub locks: LockMacro,
    /// Proposals whose partial the lock suppressed.
    pub suppressed_conflicts: u64,
    /// Heights for which a proposal was observed or made.
    pub proposal_seen: KeySet<Height>,
    /// Heights where leaderless aggregation is active.
    pub mode_b_active: KeySet<Height>,
    /// Macro-layer timer ids.
    pub timers: MacroTimerBook,
    /// Verified subnet aggregates, at most one per `(checkpoint_hash, subnet)`.
    pub subnet_aggs: Vec<SubnetAggregate>,
    /// Mode A partial signers: `((checkpoint_hash, subnet), signer)`.
    pub subnet_partials: KeySet<((Hash32, SubnetId), ValidatorId)>,
    /// Own vote history.
    pub votes: VoteBook,
    /// Partial signatures by `(checkpoint_hash, validator)`.
    pub partial_sigs: Table<(Hash32, ValidatorId), BlsSig>,
    /// Verified proposals, in arrival order.
    pub proposals_seen: Vec<MacroProposal>,
    /// Invalid crypto dropped on receive.
    pub rejected_crypto: u64,
    /// Consecutive macro windows adopted without finalization.
    pub unfinalized_windows: u32,
    /// Whether the inactivity leak was already announced for the current streak.
    pub leak_notified: bool,
}

/// No two stored subnet aggregates share `(checkpoint_hash, subnet)`.
pub open spec fn aggs_unique(aggs: Seq<SubnetAggregate>) -> bool {
    forall|i: int, j: int|
        0 <= i < aggs.len() && 0 <= j < aggs.len() && i != j
            ==> (#[trigger] aggs[i]).checkpoint_hash != (#[trigger] aggs[j]).checkpoint_hash
                || aggs[i].subnet != aggs[j].subnet
}

impl MacroBook {
    /// Internal consistency of every table.
    pub open spec fn wf(&self) -> bool {
        &&& self.candidate.wf()
        &&& self.candidate_beacon.wf()
        &&& self.partials.wf()
        &&& self.emitted_macro_qc.wf()
        &&& self.two_chain.wf()
        &&& self.locks.wf()
        &&& self.proposal_seen.wf()
        &&& self.mode_b_active.wf()
        &&& self.timers.wf()
        &&& aggs_unique(self.subnet_aggs@)
        &&& self.subnet_partials.wf()
        &&& self.partial_sigs.wf()
    }

    /// A fresh book for `self_id`: nothing seen, adopted, proposed or armed.
    pub open spec fn is_fresh(&self, self_id: ValidatorId) -> bool {
        &&& self.wf()
        &&& self.self_id == self_id
        &&& self.next_height == Height(0)
        &&& self.last_macro_hash.0@ == zero32()
        &&& self.micro_ring@.len() == 0
        &&& self.candidate@ == Map::<Height, MacroCheckpoint>::empty()
        &&& self.candidate_beacon@ == Map::<Height, Hash32>::empty()
        &&& self.partials@ == Set::<(Hash32, ValidatorId)>::empty()
        &&& self.emitted_macro_qc.elems().len() == 0
        &&& self.two_chain@ == Map::<Height, MacroCheckpoint>::empty()
        &&& self.two_chain.justified_head is None
        &&& self.two_chain.finalized_head is None
        &&& self.locks@ == Map::<ValidatorId, (Height, Hash32)>::empty()
        &&& self.suppressed_conflicts == 0
        &&& self.proposal_seen@ == Set::<Height>::empty()
        &&& self.mode_b_active@ == Set::<Height>::empty()
        &&& self.timers.seq.spec_next() == 0
        &&& self.timers.backup_by_height.pairs().len() == 0
        &&& self.timers.mode_b_by_height.pairs().len() == 0
        &&& self.timers.backup_by_height@ == Map::<u64, crate::event::TimerId>::empty()
        &&& self.timers.mode_b_by_height@ == Map::<u64, crate::event::TimerId>::empty()
        &&& self.subnet_aggs@.len() == 0
        &&& self.subnet_partials@ == Set::<((Hash32, SubnetId), ValidatorId)>::empty()
        &&& self.votes.log@.len() == 0
        &&& self.partial_sigs@ == Map::<(Hash32, ValidatorId), BlsSig>::empty()
        &&& self.proposals_seen@.len() == 0
        &&& self.rejected_crypto == 0
        &&& self.unfinalized_windows == 0
        &&& !self.leak_notified
    }

    /// Fresh book for `self_id`: height 0, genesis parent (all-zero hash), nothing seen.
    pub fn new(self_id: ValidatorId) -> (b: Self)
        ensures
            b.is_fresh(self_id),
    {
        MacroBook {
            self_id,
            micro_ring: Vec::new(),
            next_height: Height(0),
            last_macro_hash: Hash32::zero(),
            candidate: Table::new(),
            candidate_beacon: Table::new(),
            partials: KeySet::new(),
            emitted_macro_qc: KeySet::new(),
            two_chain: TwoChainRule::new(),
            locks: LockMacro::new(),
            suppressed_conflicts: 0,
            proposal_seen: KeySet::new(),
            mode_b_active: KeySet::new(),
            timers: MacroTimerBook::new(),
            subnet_aggs: Vec::new(),
            subnet_partials: KeySet::new(),
            votes: VoteBook::new(),
            partial_sigs: Table::new(),
            proposals_seen: Vec::new(),
            rejected_crypto: 0,
            unfinalized_windows: 0,
            leak_notified: false,
        }
    }

    /// Proposals whose partial the lock suppressed.
    pub fn suppressed_conflicts(&self) -> (r: u64)
        ensures
            r == self.suppressed_conflicts,
    {
        self.suppressed_conflicts
    }

    /// Number of checkpoint hashes a MacroQc was adopted for.
    pub fn emitted_macro_qc_count(&self) -> (r: usize)
        ensures
            r == self.emitted_macro_qc.elems().len(),
    {
        self.emitted_macro_qc.len()
    }

    /// Invalid crypto events dropped on receive.
    pub fn rejected_crypto(&self) -> (r: u64)
        ensures
            r == self.rejected_crypto,
    {
        self.rejected_crypto
    }
}

/// Concatenation of the ring's hashes, oldest first.
pub open spec fn ring_bytes(ring: Seq<Hash32>) -> Seq<u8>
    decreases ring.len(),
{
    if ring.len() == 0 {
        Seq::empty()
    } else {
        ring_bytes(ring.drop_last()) + ring.last().0@
    }
}

/// Root over the ring: the domain-separated digest of its hashes in emission order.
pub open spec fn spec_micro_root(ring: Seq<Hash32>) -> Seq<u8> {
    digest_with_dst(Dst::MacroMicroRoot, ring_bytes(ring))
}

/// Deterministic root of the most recent local MicroQc checkpoint hashes.
pub fn micro_root_of_ring(ring: &Vec<Hash32>) -> (r: Hash32)
    ensures
        r.0@ == spec_micro_root(ring@),
{
    let mut buf: Vec<u8> = Vec::new();
    let mut i: usize = 0;
    while i < ring.len()
        invariant
            0 <= i <= ring.len(),
            buf@ == ring_bytes(ring@.subrange(0, i as int)),
        decreases ring.len() - i,
    {
        crate::codec::push_32(&mut buf, &ring[i].0);
        i = i + 1;
        assert(ring@.subrange(0, i as int).drop_last() =~= ring@.subrange(0, i - 1));
    }
    assert(ring@.subrange(0, ring@.len() as int) =~= ring@);
    blake3_with_dst(Dst::MacroMicroRoot, buf.as_slice())
}

/// Deterministic stand-in signature: the tagged digest of `id || hash`, three times over.
pub open spec fn spec_fixture_sig(dst: Dst, id: ValidatorId, h: Hash32) -> Seq<u8> {
    let d = digest_with_dst(dst, id.0@ + h.0@);
    d + d + d
}

fn fixture_sig(dst: Dst, id: &ValidatorId, h: &Hash32) -> (r: BlsSig)
    ensures
        r.0@ == spec_fixture_sig(dst, *id, *h),
{
    let mut buf: Vec<u8> = Vec::new();
    crate::codec::push_32(&mut buf, &id.0);
    crate::codec::push_32(&mut buf, &h.0);
    let d = blake3_with_dst(dst, buf.as_slice());
    let mut out = [0u8; 96];
    let mut i: usize = 0;
    while i < 96
        invariant
            0 <= i <= 96,
            d.0@.len() == 32,
            forall|k: int| 0 <= k < i ==> out@[k] == d.0@[k % 32],
        decreases 96 - i,
    {
        out[i] = d.0[i % 32];
        i = i + 1;
    }
    let r = BlsSig(out);
    assert(r.0@ =~= spec_fixture_sig(dst, *id, *h));
    r
}

/// Stand-in partial signature used by simulations without real keys.
pub fn fixture_partial_sig(validator: &ValidatorId, checkpoint_hash: &Hash32) -> (r: BlsSig)
    ensures
        r.0@ == spec_fixture_sig(Dst::ValidatorBlsPartial, *validator, *checkpoint_hash),
{
    fixture_sig(Dst::ValidatorBlsPartial, validator, checkpoint_hash)
}

/// Stand-in proposer signature used by simulations without real keys.
pub fn fixture_proposer_sig(proposer: &ValidatorId, checkpoint_hash: &Hash32) -> (r: BlsSig)
    ensures
        r.0@ == spec_fixture_sig(Dst::MacroProposerSig, *proposer, *checkpoint_hash),
{
    fixture_sig(Dst::MacroProposerSig, proposer, checkpoint_hash)
}

} // verus!
