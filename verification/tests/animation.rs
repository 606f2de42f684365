//! Tests of the stone animator: the settle/transition state machine, its
//! determinism, and the behaviours the model promises.

use schotter::animator::{new_animator, AnimatorConfig, StoneAnimator};
use schotter::errors::ConfigError;
use schotter::grid::configure;

fn standard_config(seed: u64) -> AnimatorConfig {
    AnimatorConfig {
        displacement_gain: 1_000_000,
        rotation_gain: 1_000_000,
        motion_probability: 500_000,
        random_seed: seed,
    }
}

fn standard_animator(seed: u64) -> StoneAnimator {
    let layout = configure(22, 12).unwrap();
    new_animator(layout, standard_config(seed)).unwrap()
}

#[test]
fn animator_initial_state() {
    let a = standard_animator(42);
    assert_eq!(a.gravel.len(), 264);
    for (i, stone) in a.gravel.iter().enumerate() {
        assert_eq!(stone.col, (i % 12) as u32);
        assert_eq!(stone.row, (i / 12) as u32);
        assert_eq!(stone.x_offset, 0);
        assert_eq!(stone.y_offset, 0);
        assert_eq!(stone.rotation, 0);
        assert_eq!(stone.x_velocity, 0);
        assert_eq!(stone.y_velocity, 0);
        assert_eq!(stone.rot_velocity, 0);
        assert_eq!(stone.remaining_ticks, 0);
    }
    assert_eq!(a.source.state, 42);
}

#[test]
fn animator_rejects_bad_motion_probability() {
    let layout = configure(22, 12).unwrap();
    let mut config = standard_config(42);
    config.motion_probability = 1_000_001;
    assert!(matches!(
        new_animator(layout, config),
        Err(ConfigError::MotionProbabilityOutOfRange)
    ));
}

#[test]
fn set_config_rejects_bad_motion_probability() {
    let mut a = standard_animator(42);
    a.advance(1);
    let gravel_before = a.gravel.clone();
    let config_before = a.config;
    let state_before = a.source.state;
    let mut bad = standard_config(42);
    bad.motion_probability = 2_000_000;
    assert_eq!(
        a.set_config(bad),
        Err(ConfigError::MotionProbabilityOutOfRange)
    );
    assert_eq!(a.gravel, gravel_before);
    assert_eq!(a.config, config_before);
    assert_eq!(a.source.state, state_before);
}

#[test]
fn deterministic_replay() {
    let mut a = standard_animator(42);
    let mut b = standard_animator(42);
    for tick in 0..100 {
        a.advance(tick);
        b.advance(tick);
        assert_eq!(a.snapshot(), b.snapshot());
    }
    assert_eq!(a.source.state, b.source.state);
}

#[test]
fn first_decision_stays_within_phase_bounds() {
    // rows=22, cols=12, seed 42, gains one, motion probability one half:
    // before the first tick every countdown is zero; the first tick is a
    // decision for every stone and leaves every countdown in [50, 300),
    // whichever branch was taken.
    let mut a = standard_animator(42);
    for stone in a.gravel.iter() {
        assert_eq!(stone.remaining_ticks, 0);
    }
    a.advance(1);
    for stone in a.gravel.iter() {
        assert!(stone.remaining_ticks >= 50);
        assert!(stone.remaining_ticks < 300);
    }
    let mut again = standard_animator(42);
    again.advance(1);
    assert_eq!(a.snapshot(), again.snapshot());
    assert_eq!(a.source.state, again.source.state);
}

#[test]
fn rest_invariant_freezes_offsets() {
    // Let the stones wander first, then force every new decision to be a
    // rest and watch one stone: its offsets must stay frozen for exactly
    // the drawn number of ticks, and the tick after that is a new
    // decision.
    let mut a = standard_animator(5);
    let mut config = standard_config(5);
    config.motion_probability = 1_000_000;
    a.set_config(config).unwrap();
    for tick in 0..400 {
        a.advance(tick);
    }
    config.motion_probability = 0;
    a.set_config(config).unwrap();
    let watched = 100;
    let mut settled = false;
    for tick in 0..600 {
        let s = &a.gravel[watched];
        if s.x_velocity == 0 && s.y_velocity == 0 && s.rot_velocity == 0 && s.remaining_ticks > 0 {
            settled = true;
            break;
        }
        a.advance(tick);
    }
    assert!(settled);
    let rest_ticks = a.gravel[watched].remaining_ticks;
    assert!((50..300).contains(&rest_ticks));
    let x = a.gravel[watched].x_offset;
    let y = a.gravel[watched].y_offset;
    let rot = a.gravel[watched].rotation;
    for tick in 0..rest_ticks {
        a.advance(tick as u64);
        assert_eq!(a.gravel[watched].x_offset, x);
        assert_eq!(a.gravel[watched].y_offset, y);
        assert_eq!(a.gravel[watched].rotation, rot);
    }
    assert_eq!(a.gravel[watched].remaining_ticks, 0);
    a.advance(0);
    let after = &a.gravel[watched];
    assert!((50..300).contains(&after.remaining_ticks));
    assert_eq!(after.x_offset, x);
    assert_eq!(after.y_offset, y);
    assert_eq!(after.rotation, rot);
}

#[test]
fn transition_lands_on_accumulated_velocity() {
    // With motion probability one, the first tick starts a transition for
    // every stone. After exactly the drawn number of ticks a stone's
    // offsets equal start + ticks * velocity, exactly.
    let layout = configure(22, 12).unwrap();
    let mut config = standard_config(7);
    config.motion_probability = 1_000_000;
    let mut a = new_animator(layout, config).unwrap();
    a.advance(1);
    let watched = 100;
    let s = a.gravel[watched];
    let k = s.remaining_ticks;
    assert!((50..300).contains(&k));
    for tick in 0..k {
        a.advance(tick as u64);
    }
    let landed = &a.gravel[watched];
    assert_eq!(landed.remaining_ticks, 0);
    assert_eq!(landed.x_offset, s.x_offset + (k as i64) * s.x_velocity);
    assert_eq!(landed.y_offset, s.y_offset + (k as i64) * s.y_velocity);
    assert_eq!(landed.rotation, s.rotation + (k as i64) * s.rot_velocity);
}

#[test]
fn config_change_keeps_velocities_mid_transition() {
    let layout = configure(22, 12).unwrap();
    let mut config = standard_config(9);
    config.motion_probability = 1_000_000;
    let mut a = new_animator(layout, config).unwrap();
    a.advance(1);
    let gravel_before = a.gravel.clone();
    let mut adjusted = config;
    adjusted.displacement_gain = 3_000_000;
    adjusted.rotation_gain = 250_000;
    a.set_config(adjusted).unwrap();
    assert_eq!(a.gravel, gravel_before);
    let watched = 150;
    let s = a.gravel[watched];
    a.advance(2);
    let stepped = &a.gravel[watched];
    assert_eq!(stepped.x_offset, s.x_offset + s.x_velocity);
    assert_eq!(stepped.y_offset, s.y_offset + s.y_velocity);
    assert_eq!(stepped.rotation, s.rotation + s.rot_velocity);
    assert_eq!(stepped.remaining_ticks, s.remaining_ticks - 1);
}

#[test]
fn seed_change_reseeds_without_touching_stones() {
    let mut a = standard_animator(42);
    a.advance(1);
    let gravel_before = a.gravel.clone();
    let mut config = standard_config(43);
    config.displacement_gain = 2_000_000;
    a.set_config(config).unwrap();
    assert_eq!(a.source.state, 43);
    assert_eq!(a.gravel, gravel_before);
    let mut same_seed = standard_config(43);
    same_seed.rotation_gain = 9;
    let state_before = a.source.state;
    a.set_config(same_seed).unwrap();
    assert_eq!(a.source.state, state_before);
}

#[test]
fn single_cell_boundary_never_moves() {
    // rows=1, cols=1: the single stone has row factor 0/1 = 0, so its
    // displacement and rotation stay zero whatever the gains.
    let layout = configure(1, 1).unwrap();
    let config = AnimatorConfig {
        displacement_gain: 4_294_967_295,
        rotation_gain: 4_294_967_295,
        motion_probability: 1_000_000,
        random_seed: 11,
    };
    let mut a = new_animator(layout, config).unwrap();
    for tick in 0..500 {
        a.advance(tick);
        let frame = a.snapshot();
        assert_eq!(frame.len(), 1);
        assert_eq!(frame[0].x_offset, 0);
        assert_eq!(frame[0].y_offset, 0);
        assert_eq!(frame[0].rotation, 0);
    }
}

#[test]
fn snapshot_mirrors_stones() {
    let mut a = standard_animator(42);
    for tick in 0..60 {
        a.advance(tick);
    }
    let frame = a.snapshot();
    assert_eq!(frame.len(), a.gravel.len());
    for (entry, stone) in frame.iter().zip(a.gravel.iter()) {
        assert_eq!(entry.base_col, stone.col);
        assert_eq!(entry.base_row, stone.row);
        assert_eq!(entry.x_offset, stone.x_offset);
        assert_eq!(entry.y_offset, stone.y_offset);
        assert_eq!(entry.rotation, stone.rotation);
    }
}

#[test]
fn scatter_is_frozen_until_reseeded() {
    // The memoryless rescatter reseeds from the stored seed on every
    // call, so repeating it reproduces the identical arrangement; only a
    // new seed changes it.
    let mut a = standard_animator(42);
    a.reset_scatter();
    let first = a.snapshot();
    let source_state = a.source.state;
    a.reset_scatter();
    assert_eq!(a.snapshot(), first);
    assert_eq!(a.source.state, source_state);
    let mut reseeded = standard_config(43);
    reseeded.random_seed = 43;
    a.set_config(reseeded).unwrap();
    a.reset_scatter();
    assert_ne!(a.snapshot(), first);
}

#[test]
fn scatter_keeps_top_row_in_place() {
    let mut a = standard_animator(42);
    a.reset_scatter();
    for stone in a.gravel.iter().take(12) {
        assert_eq!(stone.row, 0);
        assert_eq!(stone.x_offset, 0);
        assert_eq!(stone.y_offset, 0);
        assert_eq!(stone.rotation, 0);
        assert_eq!(stone.remaining_ticks, 0);
    }
}
