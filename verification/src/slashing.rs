//! Slashing detectors and penalty arithmetic.
pub mod double_vote;
pub mod equivocation;
pub mod evidence;
pub mod inactivity_leak;
pub mod penalty;
pub mod surround;
pub mod vertex_equivocation;

pub use crate::slashing::evidence::verify_evidence;
pub use crate::slashing::penalty::Penalty;
