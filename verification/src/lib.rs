//! Deterministic consensus core: every decision of the protocol is a
//! verified function of its inputs; effects are returned as actions.
pub mod bytes;
pub mod types;
pub mod codec;
pub mod crypto;
pub mod dag;
pub mod vertex_cert;
pub mod table;
pub mod config;
pub mod error;
pub mod action;
pub mod api;
pub mod event;
pub mod bullshark;
pub mod leader;
pub mod macro_fin;
pub mod lock_macro;
pub mod slashing;
pub mod state_machine;
pub mod bitmap;
pub mod signers;
pub mod host_context;
pub mod l2_minimal;
pub mod ports;
pub mod prelude;

pub use crate::action::Action;
pub use crate::config::Config;
pub use crate::error::{Error, Result};
pub use crate::event::Event;
pub use crate::host_context::HostContext;
pub use crate::state_machine::StateMachine;
