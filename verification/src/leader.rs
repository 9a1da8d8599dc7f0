//! Leader election helpers and timer-id allocation.
pub mod beacon;
pub mod timeout;

pub use crate::leader::beacon::chain_beacon;
pub use crate::leader::timeout::TimerScheduler;
