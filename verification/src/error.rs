//! Crate-level error type.
use vstd::prelude::*;

verus! {

/// Consensus errors.
#[derive(Debug, PartialEq, Eq)]
pub enum Error {
    /// Configuration is malformed, or a required input (such as the
    /// validator set) is missing.
    InvalidConfig(String),
    /// A storage port reported a failure.
    Persistence(String),
    /// A cryptographic primitive reported a failure.
    Crypto(String),
    /// A codec or range failure.
    Types(String),
    /// A `lock_macro` invariant was violated.
    LockMacro(String),
}

/// Result alias.
pub type Result<T> = core::result::Result<T, Error>;

} // verus!
