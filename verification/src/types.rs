//! Wire-level data model shared by every layer of the protocol.
pub mod crypto_types;
pub mod dag;
pub mod macros;
pub mod micro;
pub mod primitives;
pub mod slashing;
pub mod validator;
