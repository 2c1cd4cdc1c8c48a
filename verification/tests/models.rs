use rhythm_engine::fixed::{span, sin_fp, wrap_tau, isqrt, SCALE, TAU_FP, PI_FP};
use rhythm_engine::noise::draw_samples;
use rhythm_engine::{
    AttentionWandering, CriticalPhi, MultiTemporalRhythm, Point2, PredictionTension,
    RhythmMetadata, SemanticVortex,
};

const SECOND: i64 = 1_000_000;

#[test]
fn span_maps_unit_samples_onto_ranges() {
    assert_eq!(span(0, -5, 5), -5);
    assert_eq!(span(999_999, 0, 300_000), 299_999);
    assert_eq!(span(500_000, -1_000_000, 1_000_000), 0);
    assert_eq!(span(0, 500_000, 2_000_000), 500_000);
}

#[test]
fn wrap_reduces_into_one_turn() {
    assert_eq!(wrap_tau(-1), TAU_FP - 1);
    assert_eq!(wrap_tau(TAU_FP as i128), 0);
    assert_eq!(wrap_tau((TAU_FP as i128) * 3 + 7), 7);
    assert_eq!(wrap_tau(-(TAU_FP as i128) - 2), TAU_FP - 2);
}

#[test]
fn isqrt_is_floor_of_square_root() {
    assert_eq!(isqrt(0), 0);
    assert_eq!(isqrt(24), 4);
    assert_eq!(isqrt(25), 5);
    assert_eq!(isqrt(1_000_000_000_000), 1_000_000);
}

#[test]
fn sine_has_zeros_and_peak() {
    assert_eq!(sin_fp(0), 0);
    assert_eq!(sin_fp(PI_FP), 0);
    let peak = sin_fp(PI_FP / 2);
    assert!(peak > 990_000 && peak <= SCALE, "peak {peak}");
    let trough = sin_fp(PI_FP / 2 + PI_FP);
    assert!(trough < -990_000 && trough >= -SCALE, "trough {trough}");
}

#[test]
fn drawn_samples_are_unit_range() {
    let samples = draw_samples(200);
    assert_eq!(samples.len(), 200);
    for u in samples {
        assert!((0..SCALE).contains(&u));
    }
}

#[test]
fn oscillator_phases_stay_wrapped() {
    let mut m = MultiTemporalRhythm::default();
    let noises = [
        vec![999_999, 999_999, 999_999],
        vec![0, 0, 0],
        vec![500_000, 0, 999_999],
    ];
    for step in 0..60 {
        m.update_with_noise(SECOND, &noises[step % 3]);
        for o in &m.oscillators {
            assert!((0..TAU_FP).contains(&o.phase), "phase {}", o.phase);
        }
    }
    assert_eq!(m.time, 60 * SECOND);
    let d = m.get_current_state(42);
    assert_eq!(d.rhythm_type, "multi_temporal");
    assert_eq!(d.timestamp, 42);
    assert_eq!(d.values.len(), 3);
    match d.metadata {
        RhythmMetadata::MultiTemporal { phases, coupling_strength, time } => {
            assert_eq!(phases.len(), 3);
            for p in phases {
                assert!((0..TAU_FP).contains(&p));
            }
            assert_eq!(coupling_strength, 200_000);
            assert_eq!(time, 60 * SECOND);
        }
        _ => panic!("wrong metadata variant"),
    }
}

#[test]
fn oscillator_displacement_follows_amplitude_and_phase() {
    let m = MultiTemporalRhythm::default();
    let d = m.get_current_state(0);
    // Phase 0 gives zero displacement for the first oscillator.
    assert_eq!(d.values[0], 0);
    // A quarter turn reads 0.75 under the parabolic sine, scaled by 0.8.
    assert!((590_000..=610_000).contains(&d.values[1]), "value {}", d.values[1]);
}

#[test]
fn criticality_avalanche_triggers_and_resets() {
    let mut c = CriticalPhi::default();
    assert_eq!(c.phi_value, 500_000);
    assert!(!c.avalanche_active);
    // Maximum phi noise, minimal duration draw, neutral matrix noise.
    let mut samples = vec![500_000i64; 27];
    samples[0] = 999_999;
    samples[1] = 0;
    c.update_with_noise(3 * SECOND, &samples);
    assert!(c.avalanche_active);
    assert_eq!(c.phi_value, 859_997);
    assert_eq!(c.avalanche_duration, 500_000);
    assert!((500_000..2_000_000).contains(&c.avalanche_duration));
    // One more second exhausts the avalanche: phi snaps back to its target.
    c.update_with_noise(SECOND, &samples);
    assert!(!c.avalanche_active);
    assert_eq!(c.phi_value, 700_000);
    let d = c.get_current_state(7);
    assert_eq!(d.rhythm_type, "critical_phi");
    assert_eq!(d.values, vec![700_000]);
    match d.metadata {
        RhythmMetadata::CriticalPhi { avalanche_active, criticality, matrix_complexity } => {
            assert!(!avalanche_active);
            assert_eq!(criticality, 0);
            assert!((0..=25_000_000).contains(&matrix_complexity));
        }
        _ => panic!("wrong metadata variant"),
    }
}

#[test]
fn criticality_clamps_hold_under_noise() {
    let mut c = CriticalPhi::default();
    for step in 0..80 {
        let u = if step % 2 == 0 { 999_999 } else { 0 };
        let samples = vec![u; 27];
        c.update_with_noise(2 * SECOND, &samples);
        assert!((0..=1_500_000).contains(&c.phi_value));
        for row in &c.integration_matrix {
            for &cell in row {
                assert!((0..=SCALE).contains(&cell));
            }
        }
        for (i, row) in c.integration_matrix.iter().enumerate() {
            assert_eq!(row[i], 0);
        }
    }
}

#[test]
fn tension_follows_the_normalized_sum() {
    // With one-second steps and the largest drawable error sample, tension
    // after k updates reads min(k, 100) * 0.299999 / 100 and never reaches
    // the release threshold.
    let mut p = PredictionTension::default();
    for k in 1..=100i64 {
        p.update_with_noise(SECOND, 999_999);
        assert!(!p.release_active);
        assert_eq!(p.error_buffer.len() as i64, k);
        assert_eq!(p.tension_level, k * 299_999 / 100);
    }
    assert_eq!(p.tension_level, 299_999);
}

#[test]
fn tension_release_cycle_crosses_and_clears() {
    // Three-second steps push tension past 0.8; the release decays and then
    // clears the whole buffer.
    let mut p = PredictionTension::default();
    for k in 1..=88i64 {
        p.update_with_noise(3 * SECOND, 999_999);
        assert!(!p.release_active, "released early at {k}");
        assert_eq!(p.tension_level, k * 899_997 / 100);
    }
    p.update_with_noise(3 * SECOND, 999_999);
    assert!(p.release_active);
    assert_eq!(p.tension_level, 89 * 899_997 / 100);
    assert_eq!(p.release_intensity, 2 * (89 * 899_997 / 100));
    let mut steps = 0;
    while p.release_active {
        p.update_with_noise(3 * SECOND, 999_999);
        steps += 1;
        assert!(steps < 500, "release never ended");
    }
    assert!(p.release_intensity < 10_000);
    assert_eq!(p.error_buffer.len(), 0);
}

#[test]
fn tension_snapshot_reports_variance() {
    let mut p = PredictionTension::default();
    p.update_with_noise(SECOND, 0);
    p.update_with_noise(SECOND, 999_999);
    let d = p.get_current_state(3);
    assert_eq!(d.rhythm_type, "prediction_tension");
    assert_eq!(d.values, vec![2_999, 0]);
    match d.metadata {
        RhythmMetadata::PredictionTension { release_active, buffer_size, variance } => {
            assert!(!release_active);
            assert_eq!(buffer_size, 2);
            assert_eq!(variance, 22_499);
        }
        _ => panic!("wrong metadata variant"),
    }
}

#[test]
fn vortex_stays_saturated_and_reports_norms() {
    let mut v = SemanticVortex::default();
    let samples = vec![500_000i64, 999_999, 0, 500_000, 500_000, 500_000];
    for _ in 0..50 {
        v.update_with_noise(SECOND, &samples);
        let lim = 1_000_000_000_000i64;
        assert!(v.current_position.x.abs() <= lim);
        assert!(v.current_position.y.abs() <= lim);
        assert!(v.current_position.z.abs() <= lim);
        assert!(v.velocity.x.abs() <= lim);
        assert!(v.velocity.y.abs() <= lim);
        assert!(v.velocity.z.abs() <= lim);
    }
    let d = v.get_current_state(11);
    assert_eq!(d.rhythm_type, "semantic_vortex");
    assert_eq!(d.values.len(), 4);
    assert_eq!(d.values[0], v.current_position.x);
    assert!(d.values[3] >= 0);
    match d.metadata {
        RhythmMetadata::SemanticVortex { num_attractors, num_repellers, position_magnitude, .. } => {
            assert_eq!(num_attractors, 3);
            assert_eq!(num_repellers, 2);
            assert!(position_magnitude >= 0);
        }
        _ => panic!("wrong metadata variant"),
    }
}

#[test]
fn attention_stays_clamped_and_targets_bounded() {
    let mut a = AttentionWandering::default();
    assert_eq!(a.attention_targets.len(), 5);
    let mut samples = vec![999_999i64; 13];
    // Always append a fresh target, never pass a focus-lock draw.
    samples[10] = 0;
    for _ in 0..200 {
        a.update_with_noise(SECOND, &samples);
        assert!(a.attention_position.x.abs() <= 2_000_000);
        assert!(a.attention_position.y.abs() <= 2_000_000);
        assert!(a.attention_targets.len() <= 8);
        for t in &a.attention_targets {
            assert!(t.x.abs() <= SCALE && t.y.abs() <= SCALE);
        }
    }
    assert_eq!(a.attention_targets.len(), 8);
    let d = a.get_current_state(5);
    assert_eq!(d.rhythm_type, "attention_wandering");
    assert_eq!(d.values.len(), 4);
    match d.metadata {
        RhythmMetadata::AttentionWandering { focused, num_targets, targets, .. } => {
            assert!(!focused);
            assert_eq!(num_targets, 8);
            assert_eq!(targets.len(), 8);
        }
        _ => panic!("wrong metadata variant"),
    }
}

#[test]
fn attention_locks_focus_on_a_near_target() {
    let mut a = AttentionWandering::default();
    // Drop a target onto the centre, keep the position still, and pass the
    // focus-lock draw for every target.
    a.attention_targets[0] = Point2 { x: 0, y: 0 };
    let mut samples = vec![500_000i64; 13];
    for i in 2..10 {
        samples[i] = 0;
    }
    samples[10] = 999_999;
    a.update_with_noise(SECOND, &samples);
    assert_eq!(a.current_focus, Some(0));
    let d = a.get_current_state(0);
    match d.metadata {
        RhythmMetadata::AttentionWandering { focused, .. } => assert!(focused),
        _ => panic!("wrong metadata variant"),
    }
}

#[test]
fn evicting_the_oldest_target_shifts_or_clears_focus() {
    let full_targets = || -> Vec<Point2> {
        (0..8).map(|i| Point2 { x: 100_000 * i, y: 0 }).collect()
    };
    // An append past the cap evicts index 0; a live focus above it shifts
    // down and keeps pointing at the same target.
    let mut a = AttentionWandering {
        attention_position: Point2 { x: 0, y: 0 },
        attention_targets: full_targets(),
        boredom_level: 0,
        curiosity_map: Vec::new(),
        current_focus: Some(3),
        focus_duration: 1,
    };
    let mut samples = vec![500_000i64; 13];
    samples[10] = 0;
    let followed = a.attention_targets[3];
    a.update_with_noise(1_000_000, &samples);
    assert_eq!(a.attention_targets.len(), 8);
    assert_eq!(a.current_focus, Some(2));
    assert_eq!(a.attention_targets[2].x, followed.x);
    // A focus on the evicted target itself is cleared.
    let mut b = AttentionWandering {
        attention_position: Point2 { x: 0, y: 0 },
        attention_targets: full_targets(),
        boredom_level: 0,
        curiosity_map: Vec::new(),
        current_focus: Some(0),
        focus_duration: 1,
    };
    b.update_with_noise(1_000_000, &samples);
    assert_eq!(b.current_focus, None);
    assert_eq!(b.focus_duration, 0);
}
