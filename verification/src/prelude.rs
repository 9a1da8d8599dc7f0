//! Convenience re-exports for downstream binaries.
pub use crate::action::Action;
pub use crate::api::tier::BlobStatus;
pub use crate::config::Config;
pub use crate::error::{Error, Result};
pub use crate::event::Event;
pub use crate::ports::{Clock, DagView, Persistence, RandomnessBeacon, ValidatorSetPort};
pub use crate::state_machine::StateMachine;
