//! Protocol parameter set and its defaults.
use vstd::prelude::*;
use crate::error::Error;

verus! {

/// All tunable protocol parameters that the deterministic core reads.
#[derive(Clone, Copy, Debug, PartialEq, Eq, Structural)]
pub struct Config {
    /// Schema version; loaders reject unknown values.
    pub schema_version: u32,
    /// Timing knobs.
    pub timing: Timing,
    /// Bullshark micro-ordering knobs.
    pub bullshark: BullsharkParams,
    /// Macro-finality knobs.
    pub macro_fin: MacroFinParams,
    /// Adaptive aggregation knobs.
    pub aggregation: AggregationParams,
    /// Slashing penalties.
    pub slashing: SlashingParams,
    /// L4 anchor placeholder.
    pub anchor_l4: AnchorL4Params,
    /// Storage GC horizons.
    pub storage: StorageParams,
}

/// Timing knobs (milliseconds).
#[derive(Clone, Copy, Debug, PartialEq, Eq, Structural)]
pub struct Timing {
    /// Round length for micro-ordering.
    pub round_duration_ms: u64,
    /// Macro proposer slot.
    pub t_macropropose_ms: u64,
    /// Subnet aggregation window.
    pub t_subnet_ms: u64,
    /// Canonical macro publish window.
    pub t_canonicalize_ms: u64,
}

/// Bullshark parameters.
#[derive(Clone, Copy, Debug, PartialEq, Eq, Structural)]
pub struct BullsharkParams {
    /// Micro committee size C.
    pub micro_committee_size: u32,
    /// Shortcut commit round count.
    pub shortcut_round_count: u32,
    /// Slow-path commit round count.
    pub slow_path_round_count: u32,
    /// Wave round count (always 4).
    pub wave_round_count: u32,
}

/// Macro-finality parameters.
#[derive(Clone, Copy, Debug, PartialEq, Eq, Structural)]
pub struct MacroFinParams {
    /// W: micro-slots per macro window.
    pub macro_window_w: u32,
    /// Casper FFG 2-chain depth.
    pub two_chain_depth: u32,
    /// Inactivity leak rate (basis points per window).
    pub inactivity_leak_bps_per_window: u32,
    /// Consecutive unfinalized windows that trigger the leak.
    pub inactivity_leak_trigger_windows: u32,
}

/// Aggregation thresholds.
#[derive(Clone, Copy, Debug, PartialEq, Eq, Structural)]
pub struct AggregationParams {
    /// Below this, use Mode 0 flat aggregation.
    pub subnet_flat_threshold: u32,
    /// At/above this, use Mode A subnet aggregation.
    pub subnet_full_threshold: u32,
    /// Dev-only override of `K_e` for simulated Mode A (not for production).
    pub sim_force_ke: Option<u32>,
}

/// Slashing penalty parameters (basis points).
#[derive(Clone, Copy, Debug, PartialEq, Eq, Structural)]
pub struct SlashingParams {
    /// Macro equivocation penalty.
    pub equivocation_bps: u32,
    /// Surround/double vote penalty.
    pub double_vote_bps: u32,
    /// Data-availability incident penalty per occurrence.
    pub da_incident_bps: u32,
    /// Per-epoch slashing cap.
    pub slashing_cap_bps: u32,
}

/// L4 anchor parameters.
#[derive(Clone, Copy, Debug, PartialEq, Eq, Structural)]
pub struct AnchorL4Params {
    /// Bitcoin confirmations required for `epoch_finalized`.
    pub btc_confirmations_for_final: u32,
}

/// Storage GC horizons (rounds).
#[derive(Clone, Copy, Debug, PartialEq, Eq, Structural)]
pub struct StorageParams {
    /// Hot tier horizon.
    pub gc_hot_horizon_rounds: u64,
    /// Warm tier horizon.
    pub gc_warm_horizon_rounds: u64,
    /// Snapshot interval in macro windows.
    pub snapshot_interval_macros: u64,
}

/// Current expected `schema_version`.
pub const SCHEMA_VERSION: u32 = 1;

/// The default protocol parameters.
pub open spec fn table_17_1() -> Config {
    Config {
        schema_version: SCHEMA_VERSION,
        timing: Timing {
            round_duration_ms: 250,
            t_macropropose_ms: 4_000,
            t_subnet_ms: 2_000,
            t_canonicalize_ms: 8_000,
        },
        bullshark: BullsharkParams {
            micro_committee_size: 256,
            shortcut_round_count: 2,
            slow_path_round_count: 4,
            wave_round_count: 4,
        },
        macro_fin: MacroFinParams {
            macro_window_w: 8,
            two_chain_depth: 2,
            inactivity_leak_bps_per_window: 50,
            inactivity_leak_trigger_windows: 4,
        },
        aggregation: AggregationParams {
            subnet_flat_threshold: 500,
            subnet_full_threshold: 1_000,
            sim_force_ke: None,
        },
        slashing: SlashingParams {
            equivocation_bps: 10_000,
            double_vote_bps: 5_000,
            da_incident_bps: 500,
            slashing_cap_bps: 5_000,
        },
        anchor_l4: AnchorL4Params { btc_confirmations_for_final: 6 },
        storage: StorageParams {
            gc_hot_horizon_rounds: 200,
            gc_warm_horizon_rounds: 10_000,
            snapshot_interval_macros: 256,
        },
    }
}

impl Config {
    /// Defaults mirroring `config/default.toml`.
    pub fn default_table_17_1() -> (c: Self)
        ensures
            c == table_17_1(),
    {
        Config {
            schema_version: SCHEMA_VERSION,
            timing: Timing {
                round_duration_ms: 250,
                t_macropropose_ms: 4_000,
                t_subnet_ms: 2_000,
                t_canonicalize_ms: 8_000,
            },
            bullshark: BullsharkParams {
                micro_committee_size: 256,
                shortcut_round_count: 2,
                slow_path_round_count: 4,
                wave_round_count: 4,
            },
            macro_fin: MacroFinParams {
                macro_window_w: 8,
                two_chain_depth: 2,
                inactivity_leak_bps_per_window: 50,
                inactivity_leak_trigger_windows: 4,
            },
            aggregation: AggregationParams {
                subnet_flat_threshold: 500,
                subnet_full_threshold: 1_000,
                sim_force_ke: None,
            },
            slashing: SlashingParams {
                equivocation_bps: 10_000,
                double_vote_bps: 5_000,
                da_incident_bps: 500,
                slashing_cap_bps: 5_000,
            },
            anchor_l4: AnchorL4Params { btc_confirmations_for_final: 6 },
            storage: StorageParams {
                gc_hot_horizon_rounds: 200,
                gc_warm_horizon_rounds: 10_000,
                snapshot_interval_macros: 256,
            },
        }
    }

    /// Dev-only table: forces Mode A with 8 validators in simulation (not production).
    pub fn sim_mode_a_dev() -> (c: Self)
        ensures
            c == (Config {
                aggregation: AggregationParams {
                    subnet_flat_threshold: 8,
                    sim_force_ke: Some(8),
                    ..table_17_1().aggregation
                },
                ..table_17_1()
            }),
    {
        let mut c = Self::default_table_17_1();
        c.aggregation.subnet_flat_threshold = 8;
        c.aggregation.sim_force_ke = Some(8);
        c
    }

    /// Accepts a parsed configuration only at the supported schema version.
    pub fn check_schema(self) -> (r: Result<Config, Error>)
        ensures
            self.schema_version == SCHEMA_VERSION <==> r is Ok,
            r matches Ok(c) ==> c == self,
            r matches Err(e) ==> e is InvalidConfig,
    {
        if self.schema_version != SCHEMA_VERSION {
            return Err(Error::InvalidConfig("unsupported schema_version (expected 1)".to_owned()));
        }
        Ok(self)
    }
}

} // verus!
