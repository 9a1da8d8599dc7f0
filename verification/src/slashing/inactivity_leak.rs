//! Inactivity leak: a per-window rate once unfinalized for the trigger count.
use vstd::prelude::*;
use crate::config::Config;

verus! {

/// `(bps, should_apply)` for a count of consecutive unfinalized windows.
pub fn compute(cfg: &Config, unfinalized_windows: u32) -> (r: (u32, bool))
    ensures
        r.0 == cfg.macro_fin.inactivity_leak_bps_per_window,
        r.1 == (unfinalized_windows >= cfg.macro_fin.inactivity_leak_trigger_windows),
{
    let apply = unfinalized_windows >= cfg.macro_fin.inactivity_leak_trigger_windows;
    (cfg.macro_fin.inactivity_leak_bps_per_window, apply)
}

} // verus!
