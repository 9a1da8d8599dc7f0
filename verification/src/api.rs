//! External read-only API surface.
pub mod tier;
pub mod query;

pub use crate::api::query::ConsensusQuery;
pub use crate::api::tier::BlobStatus;
