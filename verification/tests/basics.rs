use consensus::bullshark::wave::WaveId;
use consensus::config::Config;
use consensus::error::Error;
use consensus::event::TimerId;
use consensus::leader::beacon::chain_beacon;
use consensus::leader::timeout::TimerScheduler;
use consensus::lock_macro::LockMacro;
use consensus::macro_fin::aggregation::subnet::SubnetAssign;
use consensus::macro_fin::aggregation::{compute_ke, select_mode, AggregationMode, Ke};
use consensus::macro_fin::checkpoint::build;
use consensus::macro_fin::timer::MacroTimerBook;
use consensus::macro_fin::two_chain::TwoChainRule;
use consensus::macro_fin::window::MacroWindow;
use consensus::slashing::inactivity_leak::compute;
use consensus::slashing::penalty::Penalty;
use consensus::macro_fin::proposer::ProposerSchedule;
use consensus::types::crypto_types::{BlsPubkey, Hash32, VrfPubkey};
use consensus::types::validator::{ValidatorEntry, ValidatorIdentity, ValidatorSet};
use consensus::types::macros::MacroCheckpoint;
use consensus::types::primitives::{Epoch, Height, Round, StakeWeight, ValidatorId};

#[test]
fn wave_bounds() {
    let w = WaveId(2);
    assert_eq!(w.first_round(), Round(8));
    assert_eq!(w.last_round(), Round(11));
    assert_eq!(WaveId::of_round(Round(10)), WaveId(2));
}

#[test]
fn defaults_match_table_17_1_constants() {
    let c = Config::default_table_17_1();
    assert_eq!(c.timing.round_duration_ms, 250);
    assert_eq!(c.macro_fin.macro_window_w, 8);
    assert_eq!(c.bullshark.micro_committee_size, 256);
    assert_eq!(c.aggregation.subnet_flat_threshold, 500);
    assert_eq!(c.aggregation.subnet_full_threshold, 1_000);
    assert_eq!(c.anchor_l4.btc_confirmations_for_final, 6);
}

#[test]
fn unknown_schema_version_rejected() {
    let mut cfg = Config::default_table_17_1();
    cfg.schema_version = 99;
    let err = cfg.check_schema().unwrap_err();
    assert!(matches!(err, Error::InvalidConfig(_)));
}

#[test]
fn current_schema_version_accepted_unchanged() {
    let cfg = Config::default_table_17_1();
    assert_eq!(cfg.check_schema(), Ok(cfg));
}

#[test]
fn chaining_is_deterministic_and_changes_on_input() {
    let prev = Hash32([1; 32]);
    let qc = Hash32([2; 32]);
    let a = chain_beacon(&prev, &qc);
    let b = chain_beacon(&prev, &qc);
    assert_eq!(a, b);
    let c = chain_beacon(&prev, &Hash32([3; 32]));
    assert_ne!(a, c);
    assert_ne!(a, prev);
    assert_ne!(a, qc);
}

#[test]
fn allocates_monotonic_ids() {
    let mut s = TimerScheduler::default();
    assert_eq!(s.allocate(), TimerId(0));
    assert_eq!(s.allocate(), TimerId(1));
}

#[test]
fn lock_then_extend_to_higher_height_ok() {
    let mut lm = LockMacro::new();
    let v = ValidatorId([1; 32]);
    lm.try_lock(v, Height(1), Hash32([0xAA; 32])).unwrap();
    lm.try_lock(v, Height(2), Hash32([0xBB; 32])).unwrap();
    assert_eq!(lm.get(&v), Some((Height(2), Hash32([0xBB; 32]))));
}

#[test]
fn lock_conflict_at_same_height_rejected() {
    let mut lm = LockMacro::new();
    let v = ValidatorId([1; 32]);
    lm.try_lock(v, Height(1), Hash32([0xAA; 32])).unwrap();
    let err = lm.try_lock(v, Height(1), Hash32([0xCC; 32])).unwrap_err();
    assert!(err.contains("conflicting"));
    assert_eq!(lm.get(&v), Some((Height(1), Hash32([0xAA; 32]))));
}

#[test]
fn same_height_same_checkpoint_idempotent() {
    let mut lm = LockMacro::new();
    let v = ValidatorId([1; 32]);
    lm.try_lock(v, Height(1), Hash32([0xAA; 32])).unwrap();
    lm.try_lock(v, Height(1), Hash32([0xAA; 32])).unwrap();
}

#[test]
fn lock_of_other_validator_is_independent() {
    let mut lm = LockMacro::default();
    let v = ValidatorId([1; 32]);
    let w = ValidatorId([2; 32]);
    lm.try_lock(v, Height(1), Hash32([0xAA; 32])).unwrap();
    lm.try_lock(w, Height(1), Hash32([0xCC; 32])).unwrap();
    assert_eq!(lm.get(&w), Some((Height(1), Hash32([0xCC; 32]))));
    assert_eq!(lm.get(&ValidatorId([3; 32])), None);
}

#[test]
fn ke_is_zero_below_threshold() {
    let cfg = Config::default_table_17_1();
    assert_eq!(compute_ke(&cfg, 499), Ke(0));
    assert_eq!(compute_ke(&cfg, 100), Ke(0));
}

#[test]
fn ke_scales_and_caps_at_32() {
    let cfg = Config::default_table_17_1();
    assert_eq!(compute_ke(&cfg, 500), Ke(4));
    assert_eq!(compute_ke(&cfg, 1000), Ke(8));
    assert_eq!(compute_ke(&cfg, 10_000), Ke(32));
}

#[test]
fn ke_rounds_up_per_128_validators() {
    let cfg = Config::default_table_17_1();
    assert_eq!(compute_ke(&cfg, 513), Ke(5));
    assert_eq!(compute_ke(&cfg, u32::MAX), Ke(32));
}

#[test]
fn sim_force_ke_overrides_formula() {
    let mut cfg = Config::default_table_17_1();
    cfg.aggregation.sim_force_ke = Some(8);
    assert_eq!(compute_ke(&cfg, 4), Ke(8));
}

#[test]
fn mode_thresholds() {
    let cfg = Config::default_table_17_1();
    assert_eq!(select_mode(&cfg, 100), AggregationMode::Mode0Flat);
    assert_eq!(select_mode(&cfg, 499), AggregationMode::Mode0Flat);
    assert_eq!(select_mode(&cfg, 500), AggregationMode::ModeASubnet);
    assert_eq!(select_mode(&cfg, 5_000), AggregationMode::ModeASubnet);
}

#[test]
fn subnet_assignment_is_deterministic() {
    let assign = SubnetAssign {
        k_e: Ke(8),
        r_macro: Hash32([0xAB; 32]),
    };
    let v = ValidatorId([1; 32]);
    let a = assign.index_for(&v);
    let b = assign.index_for(&v);
    assert_eq!(a, b);
    assert!(a < 8);
}

#[test]
fn subnet_assignment_with_zero_subnets_is_zero() {
    let assign = SubnetAssign {
        k_e: Ke(0),
        r_macro: Hash32([0xAB; 32]),
    };
    assert_eq!(assign.index_for(&ValidatorId([7; 32])), 0);
}

#[test]
fn backup_timer_maps_height_to_id() {
    let mut t = MacroTimerBook::new();
    let id = TimerId(42);
    t.schedule_backup_propose(Height(1), id);
    assert_eq!(t.backup_timer_for(Height(1)), Some(id));
    assert_eq!(t.height_for_backup_timer(id), Some(Height(1)));
    t.clear_backup(Height(1));
    assert_eq!(t.backup_timer_for(Height(1)), None);
    assert_eq!(t.height_for_backup_timer(id), None);
}

#[test]
fn mode_b_timer_maps_height_to_id() {
    let mut t = MacroTimerBook::default();
    let id = TimerId(7);
    t.schedule_mode_b_deadline(Height(3), id);
    assert_eq!(t.mode_b_timer_for(Height(3)), Some(id));
    assert_eq!(t.height_for_mode_b_timer(id), Some(Height(3)));
    assert_eq!(t.backup_timer_for(Height(3)), None);
    t.clear_mode_b(Height(3));
    assert_eq!(t.mode_b_timer_for(Height(3)), None);
}

fn ck(height: Height, parent: Hash32, micro: u8) -> MacroCheckpoint {
    build(height, Epoch(0), parent, Hash32([micro; 32]))
}

#[test]
fn genesis_has_no_finality() {
    let r = TwoChainRule::default();
    assert!(r.newly_finalized_height().is_none());
}

#[test]
fn first_adoption_justifies_but_does_not_finalize() {
    let mut r = TwoChainRule::default();
    let c0 = ck(Height(0), Hash32::zero(), 1);
    r.adopt(c0.clone());
    assert_eq!(r.justified_head, Some(c0.hash));
    assert!(r.newly_finalized_height().is_none());
}

#[test]
fn second_adoption_with_matching_parent_finalizes_previous() {
    let mut r = TwoChainRule::default();
    let c0 = ck(Height(0), Hash32::zero(), 1);
    let c1 = ck(Height(1), c0.hash, 2);
    r.adopt(c0.clone());
    r.adopt(c1);
    assert_eq!(r.newly_finalized_height(), Some(Height(0)));
    r.mark_finalized(Height(0));
    assert_eq!(r.finalized_head, Some(c0.hash));
    assert!(r.newly_finalized_height().is_none());
}

#[test]
fn parent_mismatch_blocks_finalization() {
    let mut r = TwoChainRule::default();
    let c0 = ck(Height(0), Hash32::zero(), 1);
    let c1_bad = ck(Height(1), Hash32([0x99; 32]), 2);
    r.adopt(c0);
    r.adopt(c1_bad);
    assert!(r.newly_finalized_height().is_none());
}

#[test]
fn build_is_deterministic_for_same_inputs() {
    let a = build(Height(7), Epoch(0), Hash32([0xAA; 32]), Hash32([0xBB; 32]));
    let b = build(Height(7), Epoch(0), Hash32([0xAA; 32]), Hash32([0xBB; 32]));
    assert_eq!(a, b);
    assert_eq!(a.hash, b.hash);
}

#[test]
fn build_hash_changes_with_each_field() {
    let base = build(Height(7), Epoch(0), Hash32([0xAA; 32]), Hash32([0xBB; 32]));
    assert_ne!(base.hash, build(Height(8), Epoch(0), Hash32([0xAA; 32]), Hash32([0xBB; 32])).hash);
    assert_ne!(base.hash, build(Height(7), Epoch(1), Hash32([0xAA; 32]), Hash32([0xBB; 32])).hash);
    assert_ne!(base.hash, build(Height(7), Epoch(0), Hash32([0xCC; 32]), Hash32([0xBB; 32])).hash);
    assert_ne!(base.hash, build(Height(7), Epoch(0), Hash32([0xAA; 32]), Hash32([0xDD; 32])).hash);
}

#[test]
fn round_to_window_uses_w_from_config() {
    let cfg = Config::default_table_17_1();
    assert_eq!(MacroWindow::of_round(&cfg, Round(15)).height, Height(1));
    assert_eq!(MacroWindow::of_round(&cfg, Round(16)).height, Height(2));
}

#[test]
fn no_leak_under_threshold() {
    let cfg = Config::default_table_17_1();
    let (rate, apply) = compute(&cfg, 3);
    assert_eq!(rate, 50);
    assert!(!apply);
}

#[test]
fn leak_applied_at_or_above_threshold() {
    let cfg = Config::default_table_17_1();
    let (_rate, apply) = compute(&cfg, 4);
    assert!(apply);
}

#[test]
fn equivocation_is_full_slash() {
    let cfg = Config::default_table_17_1();
    assert_eq!(Penalty::Equivocation.bps(&cfg), 10_000);
}

#[test]
fn cap_respected() {
    let cfg = Config::default_table_17_1();
    assert_eq!(Penalty::cap(&cfg, 20_000), 5_000);
    assert_eq!(Penalty::cap(&cfg, 1_234), 1_234);
}

fn vset(n: u32) -> ValidatorSet {
    let entries = (0..n)
        .map(|i| {
            let mut id = [0u8; 32];
            id[..4].copy_from_slice(&i.to_be_bytes());
            ValidatorEntry {
                id: ValidatorId(id),
                bls_pubkey: BlsPubkey([0; 48]),
                vrf_pubkey: VrfPubkey([0; 32]),
                stake: StakeWeight(1),
                identity: ValidatorIdentity { asn: None, cloud: None, region: None },
            }
        })
        .collect();
    ValidatorSet { epoch: Epoch(0), entries, total_stake: StakeWeight(u64::from(n)) }
}

#[test]
fn round_robin_primary_rotates_with_height() {
    let set = vset(4);
    let s0 = ProposerSchedule::round_robin(&set, Height(0));
    let s1 = ProposerSchedule::round_robin(&set, Height(1));
    let s4 = ProposerSchedule::round_robin(&set, Height(4));
    assert_eq!(s0.primary, set.entries[0].id);
    assert_eq!(s1.primary, set.entries[1].id);
    assert_eq!(s4.primary, set.entries[0].id, "wraps mod n");
}

#[test]
fn round_robin_backup_is_next_primary() {
    let set = vset(4);
    let s2 = ProposerSchedule::round_robin(&set, Height(2));
    assert_eq!(s2.primary, set.entries[2].id);
    assert_eq!(s2.backup, set.entries[3].id);
    let s3 = ProposerSchedule::round_robin(&set, Height(3));
    assert_eq!(s3.backup, set.entries[0].id, "backup wraps mod n");
}

#[test]
fn round_robin_backup_wraps_at_the_top_height() {
    let set = vset(3);
    let s = ProposerSchedule::round_robin(&set, Height(u64::MAX));
    assert_eq!(s.primary, set.entries[(u64::MAX % 3) as usize].id);
    assert_eq!(s.backup, set.entries[0].id);
}
