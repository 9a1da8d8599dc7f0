//! Bullshark micro-ordering: waves, anchor inputs,
//! commit rule, closure linearization and MicroQc aggregation.
pub mod anchor;
pub mod commit;
pub mod linearize;
pub mod micro_qc;
pub mod wave;

pub use crate::bullshark::anchor::AnchorChoice;
pub use crate::bullshark::commit::{CommitDecision, CommitPath};
pub use crate::bullshark::linearize::{checkpoint_hash_from_linearization, checkpoint_hash_from_rounds, Linearization};
pub use crate::bullshark::micro_qc::{EmittedSet, MicroQcBuilder};
pub use crate::bullshark::wave::WaveId;

use vstd::prelude::*;
use crate::action::{produced, Actions};
use crate::config::Config;
use crate::error::Result;
use crate::event::TimerId;
use crate::host_context::HostContext;
use crate::types::dag::CertifiedVertex;
use crate::types::micro::MicroQc;

verus! {

/// A certified vertex for the ordering layer: nothing to emit yet.
pub fn on_certified_vertex(emitted: &mut EmittedSet, cfg: &Config, cv: CertifiedVertex, ctx: &HostContext) -> (r: Result<Actions>)
    ensures
        r is Ok && produced(r).len() == 0,
        *final(emitted) == *old(emitted),
{
    Ok(Vec::new())
}

/// A MicroQc assembled elsewhere: remember its checkpoint, broadcast nothing.
pub fn on_micro_qc_assembled(emitted: &mut EmittedSet, qc: MicroQc) -> (r: Result<Actions>)
    requires
        old(emitted).wf(),
    ensures
        final(emitted).wf(),
        final(emitted)@ == old(emitted)@.insert(qc.checkpoint_hash),
        r is Ok && produced(r).len() == 0,
{
    if !emitted.contains(&qc.checkpoint_hash) {
        emitted.insert(qc.checkpoint_hash);
    }
    proof {
        assert(emitted@ =~= old(emitted)@.insert(qc.checkpoint_hash));
    }
    Ok(Vec::new())
}

/// A timer for the ordering layer: nothing to do.
pub fn on_timer_fired(emitted: &mut EmittedSet, cfg: &Config, id: TimerId, ctx: &HostContext) -> (r: Result<Actions>)
    ensures
        r is Ok && produced(r).len() == 0,
        *final(emitted) == *old(emitted),
{
    Ok(Vec::new())
}

} // verus!
