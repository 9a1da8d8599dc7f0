//! Macro window cadence (W micro-slots per window).
use vstd::prelude::*;
use crate::config::Config;
use crate::types::primitives::{Height, Round};

verus! {

/// One macro window covering `W` consecutive micro-slots.
#[derive(Clone, Copy, Debug, PartialEq, Eq, Structural)]
pub struct MacroWindow {
    /// Window height.
    pub height: Height,
}

impl MacroWindow {
    /// Window containing `round`, given the active config.
    pub fn of_round(cfg: &Config, round: Round) -> (w: Self)
        requires
            cfg.macro_fin.macro_window_w > 0,
        ensures
            w.height.0 == round.0 / (cfg.macro_fin.macro_window_w as u64),
    {
        let w = cfg.macro_fin.macro_window_w as u64;
        MacroWindow { height: Height(round.0 / w) }
    }
}

} // verus!
