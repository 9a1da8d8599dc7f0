//! Penalty arithmetic (basis points).
use vstd::prelude::*;
use crate::config::Config;

verus! {

/// Penalty kind for accounting.
#[derive(Clone, Copy, Debug, PartialEq, Eq, Structural)]
pub enum Penalty {
    /// Macro equivocation.
    Equivocation,
    /// Surround / double vote.
    DoubleVote,
    /// Data-availability incident.
    DaIncident,
    /// Inactivity leak (per window).
    InactivityLeak,
}

impl Penalty {
    /// Penalty in basis points (`10_000 == 100 %`).
    pub fn bps(self, cfg: &Config) -> (r: u32)
        ensures
            r == match self {
                Penalty::Equivocation => cfg.slashing.equivocation_bps,
                Penalty::DoubleVote => cfg.slashing.double_vote_bps,
                Penalty::DaIncident => cfg.slashing.da_incident_bps,
                Penalty::InactivityLeak => cfg.macro_fin.inactivity_leak_bps_per_window,
            },
    {
        match self {
            Penalty::Equivocation => cfg.slashing.equivocation_bps,
            Penalty::DoubleVote => cfg.slashing.double_vote_bps,
            Penalty::DaIncident => cfg.slashing.da_incident_bps,
            Penalty::InactivityLeak => cfg.macro_fin.inactivity_leak_bps_per_window,
        }
    }

    /// Clamp a cumulative penalty to the per-epoch cap.
    pub fn cap(cfg: &Config, cumulative_bps: u32) -> (r: u32)
        ensures
            r <= cfg.slashing.slashing_cap_bps,
            r <= cumulative_bps,
            r == cumulative_bps || r == cfg.slashing.slashing_cap_bps,
    {
        if cumulative_bps < cfg.slashing.slashing_cap_bps {
            cumulative_bps
        } else {
            cfg.slashing.slashing_cap_bps
        }
    }
}

} // verus!
