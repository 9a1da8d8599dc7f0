//! The deterministic state machine: every input is an `Event`, every effect
//! an `Action`.
use vstd::prelude::*;
use crate::action::{produced, Actions};
use crate::bullshark::micro_qc::EmittedSet;
use crate::config::Config;
use crate::error::Result;
use crate::event::Event;
use crate::host_context::HostContext;
use crate::action::Action;
use crate::macro_fin::assemble::{bls_partial_handled, subnet_aggregate_handled};
use crate::macro_fin::book::MacroBook;
use crate::macro_fin::fired::macro_timer_handled;
use crate::macro_fin::timer::first_height_with;
use crate::event::TimerId;
use crate::macro_fin::vote::{macro_proposal_handled, set_size_fits};
use crate::macro_fin::{macro_qc_handled, micro_intake_handled};
use crate::types::primitives::{Epoch, ValidatorId};
use crate::vertex_cert::book::VertexBook;
use crate::vertex_cert::{certified_vertex_handled, vertex_partial_handled, vertex_proposal_handled, vertex_timer_handled};

verus! {

/// A fired timer went through the vertex layer (giving `rv` and the actions
/// `mid`) and, unless that failed, through the macro layer (giving `fin`);
/// `r` is what the step returned.
pub open spec fn timer_step(
    vpre: VertexBook,
    vpost: VertexBook,
    mpre: MacroBook,
    mpost: MacroBook,
    cfg: Config,
    ctx: &HostContext,
    id: TimerId,
    r: Result<Actions>,
    mid: Seq<Action>,
    rv: Result<()>,
    fin: Seq<Action>,
) -> bool {
    &&& vertex_timer_handled(vpre, vpost, Seq::empty(), mid, cfg, ctx, id, rv)
    &&& (rv is Err ==> r is Err && mpost == mpre)
    &&& (rv is Ok ==> macro_timer_handled(mpre, mpost, mid, fin, ctx, id, r is Ok) && (r is Ok ==> produced(r) == fin))
}

/// Consensus state machine for one validator.
#[derive(Debug)]
pub struct StateMachine {
    cfg: Config,
    emitted: EmittedSet,
    vertices: VertexBook,
    macros: MacroBook,
}

impl StateMachine {
    /// The active configuration.
    pub closed spec fn spec_config(&self) -> Config {
        self.cfg
    }

    /// The macro-finality book.
    pub closed spec fn spec_macros(&self) -> MacroBook {
        self.macros
    }

    /// The vertex-certification book.
    pub closed spec fn spec_vertices(&self) -> VertexBook {
        self.vertices
    }

    /// The MicroQc emissions.
    pub closed spec fn spec_emitted(&self) -> Set<crate::types::crypto_types::Hash32> {
        self.emitted@
    }

    /// Internal consistency of every book.
    pub closed spec fn wf(&self) -> bool {
        self.emitted.wf() && self.vertices.wf() && self.macros.wf()
    }

    /// A state machine for `self_id` with fresh books.
    pub fn new(cfg: Config, self_id: ValidatorId) -> (sm: Self)
        ensures
            sm.wf(),
            sm.spec_config() == cfg,
            sm.spec_macros().is_fresh(self_id),
            sm.spec_vertices().is_fresh(self_id),
            sm.spec_emitted() == Set::<crate::types::crypto_types::Hash32>::empty(),
    {
        StateMachine {
            cfg,
            emitted: EmittedSet::new(),
            vertices: VertexBook::new(self_id),
            macros: MacroBook::new(self_id),
        }
    }

    /// Active config (immutable while running).
    pub fn config(&self) -> (c: &Config)
        ensures
            *c == self.spec_config(),
    {
        &self.cfg
    }

    /// Drive one event through the state machine and return the resulting
    /// actions. Certified vertices feed vertex certification, ordering and the
    /// macro window; timers go to all three layers; vertex and macro messages
    /// to their handlers; set updates and evidence produce nothing here.
    pub fn step(&mut self, event: Event, ctx: &HostContext) -> (r: Result<Actions>)
        requires
            old(self).wf(),
            set_size_fits(ctx),
        ensures
            final(self).wf(),
            final(self).spec_config() == old(self).spec_config(),
            final(self).spec_macros().self_id == old(self).spec_macros().self_id,
            final(self).spec_vertices().self_id == old(self).spec_vertices().self_id,
            match event {
                Event::ValidatorSetUpdated { .. } | Event::SlashEvidenceFound(_) =>
                    r is Ok && produced(r).len() == 0 && *final(self) == *old(self),
                Event::MacroQcReceived(qc) =>
                    final(self).spec_vertices() == old(self).spec_vertices()
                        && final(self).spec_emitted() == old(self).spec_emitted()
                        && macro_qc_handled(old(self).spec_macros(), final(self).spec_macros(), old(self).spec_config(), ctx, qc, r),
                Event::MacroProposalReceived(p) =>
                    final(self).spec_vertices() == old(self).spec_vertices()
                        && final(self).spec_emitted() == old(self).spec_emitted()
                        && macro_proposal_handled(old(self).spec_macros(), final(self).spec_macros(), old(self).spec_config(), ctx, p, r),
                Event::BlsPartialReceived(bp) =>
                    final(self).spec_vertices() == old(self).spec_vertices()
                        && final(self).spec_emitted() == old(self).spec_emitted()
                        && bls_partial_handled(old(self).spec_macros(), final(self).spec_macros(), old(self).spec_config(), ctx, bp, r),
                Event::SubnetAggregateReceived(a) =>
                    final(self).spec_vertices() == old(self).spec_vertices()
                        && final(self).spec_emitted() == old(self).spec_emitted()
                        && subnet_aggregate_handled(old(self).spec_macros(), final(self).spec_macros(), old(self).spec_config(), ctx, a, r),
                Event::VertexProposalReceived(p) =>
                    final(self).spec_macros() == old(self).spec_macros()
                        && final(self).spec_emitted() == old(self).spec_emitted()
                        && vertex_proposal_handled(old(self).spec_vertices(), final(self).spec_vertices(), ctx, p, r),
                Event::VertexPartialReceived(bp) =>
                    final(self).spec_macros() == old(self).spec_macros()
                        && final(self).spec_emitted() == old(self).spec_emitted()
                        && vertex_partial_handled(old(self).spec_vertices(), final(self).spec_vertices(), ctx, bp, r),
                Event::CertifiedVertexReceived(cv) =>
                    final(self).spec_emitted() == old(self).spec_emitted()
                        && (!old(self).spec_vertices().started ==> r is Ok && produced(r).len() == 0
                            && final(self).spec_macros() == old(self).spec_macros()
                            && final(self).spec_vertices() == (VertexBook { certified: final(self).spec_vertices().certified, ..old(self).spec_vertices() })
                            && final(self).spec_vertices().certified@ == old(self).spec_vertices().certified@.insert(
                                (cv.vertex.round, cv.vertex.author), cv.vertex.hash))
                        && (r is Ok ==> exists|mid: Seq<Action>|
                            certified_vertex_handled(old(self).spec_vertices(), final(self).spec_vertices(), Seq::empty(), mid, ctx, cv, Ok(()))
                            && #[trigger] micro_intake_handled(old(self).spec_macros(), final(self).spec_macros(), mid, produced(r),
                                old(self).spec_config(), ctx, Ok(()))),
                Event::TimerFired(id) =>
                    final(self).spec_emitted() == old(self).spec_emitted()
                        && final(self).spec_vertices().current_round == old(self).spec_vertices().current_round
                        && final(self).spec_vertices().certified == old(self).spec_vertices().certified
                        && final(self).spec_vertices().my_proposals == old(self).spec_vertices().my_proposals
                        && (exists|mid: Seq<Action>, rv: Result<()>, fin: Seq<Action>| #[trigger] timer_step(old(self).spec_vertices(),
                            final(self).spec_vertices(), old(self).spec_macros(), final(self).spec_macros(), old(self).spec_config(),
                            ctx, id, r, mid, rv, fin))
                        && (old(self).spec_vertices().round_timer != Some(id)
                            && first_height_with(old(self).spec_macros().timers.backup_by_height.pairs(), id) is None
                            && first_height_with(old(self).spec_macros().timers.mode_b_by_height.pairs(), id) is None
                            ==> r is Ok && produced(r).len() == 0 && *final(self) == *old(self)),
                Event::MicroQcAssembled(qc) =>
                    r is Ok && produced(r).len() == 0
                        && final(self).spec_emitted() == old(self).spec_emitted().insert(qc.checkpoint_hash)
                        && final(self).spec_macros() == old(self).spec_macros()
                        && final(self).spec_vertices() == old(self).spec_vertices(),
            },
            ctx.valset.spec_answers() && ctx.beacon.spec_answers() && ctx.valset.spec_set_for(Epoch(0)) is Some
                && (event is MacroQcReceived || event is MacroProposalReceived || event is BlsPartialReceived
                    || event is SubnetAggregateReceived || event is VertexProposalReceived) ==> r is Ok,
    {
        match event {
            Event::CertifiedVertexReceived(cv) => {
                let mut actions: Actions = Vec::new();
                crate::vertex_cert::on_certified_vertex(&mut self.vertices, &self.cfg, &cv, ctx, &mut actions)?;
                let ghost mid = actions@;
                let mut more = crate::bullshark::on_certified_vertex(&mut self.emitted, &self.cfg, cv, ctx)?;
                actions.append(&mut more);
                assert(actions@ =~= mid);
                crate::macro_fin::on_local_micro_qcs(&mut self.macros, &self.cfg, ctx, &mut actions)?;
                assert(micro_intake_handled(old(self).spec_macros(), self.spec_macros(), mid, actions@, old(self).spec_config(), ctx, Ok(())));
                Ok(actions)
            },
            Event::MicroQcAssembled(qc) => crate::bullshark::on_micro_qc_assembled(&mut self.emitted, qc),
            Event::TimerFired(id) => {
                let mut actions = crate::bullshark::on_timer_fired(&mut self.emitted, &self.cfg, id, ctx)?;
                assert(actions@ =~= Seq::<Action>::empty());
                let rv = crate::vertex_cert::on_timer_fired(&mut self.vertices, &self.cfg, ctx, id, &mut actions);
                let ghost mid = actions@;
                match rv {
                    Err(e) => {
                        let r: Result<Actions> = Err(e);
                        assert(timer_step(old(self).spec_vertices(), self.spec_vertices(), old(self).spec_macros(), self.spec_macros(),
                            self.spec_config(), ctx, id, r, mid, rv, mid));
                        return r;
                    },
                    Ok(()) => {},
                }
                let res = crate::macro_fin::on_timer_fired(&mut self.macros, &self.cfg, ctx, id, &mut actions);
                let ghost fin = actions@;
                let r: Result<Actions> = match res {
                    Err(e) => Err(e),
                    Ok(()) => Ok(actions),
                };
                assert(timer_step(old(self).spec_vertices(), self.spec_vertices(), old(self).spec_macros(), self.spec_macros(),
                    self.spec_config(), ctx, id, r, mid, rv, fin));
                r
            },
            Event::MacroProposalReceived(p) => crate::macro_fin::on_macro_proposal(&mut self.macros, &self.cfg, p, ctx),
            Event::BlsPartialReceived(bp) => crate::macro_fin::on_bls_partial(&mut self.macros, &self.cfg, bp, ctx),
            Event::SubnetAggregateReceived(a) => crate::macro_fin::on_subnet_aggregate(&mut self.macros, &self.cfg, a, ctx),
            Event::MacroQcReceived(qc) => crate::macro_fin::on_macro_qc_received(&mut self.macros, &self.cfg, qc, ctx),
            Event::VertexProposalReceived(p) => crate::vertex_cert::on_vertex_proposal(&mut self.vertices, &self.cfg, p, ctx),
            Event::VertexPartialReceived(bp) => crate::vertex_cert::on_vertex_partial(&mut self.vertices, &self.cfg, bp, ctx),
            Event::ValidatorSetUpdated { .. } => Ok(Vec::new()),
            Event::SlashEvidenceFound(_) => Ok(Vec::new()),
        }
    }
}

/// A fresh machine owns no timer: no layer holds any timer id, so `step` on a
/// fired timer answers `Ok` with no actions and leaves the machine as it was.
pub proof fn lemma_fresh_machine_owns_no_timer(sm: StateMachine, self_id: ValidatorId, id: TimerId)
    requires
        sm.spec_vertices().is_fresh(self_id),
        sm.spec_macros().is_fresh(self_id),
    ensures
        sm.spec_vertices().round_timer != Some(id),
        first_height_with(sm.spec_macros().timers.backup_by_height.pairs(), id) is None,
        first_height_with(sm.spec_macros().timers.mode_b_by_height.pairs(), id) is None,
{
}

} // verus!
