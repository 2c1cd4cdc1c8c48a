use rhythm_engine::RhythmEngine;

const SECOND: i64 = 1_000_000;

fn engine() -> RhythmEngine {
    RhythmEngine::default()
}

#[test]
fn unknown_identifier_is_rejected_without_mutation() {
    let mut e = engine();
    let phases_before: Vec<i64> = e.multi_temporal.oscillators.iter().map(|o| o.phase).collect();
    let phi_before = e.critical_phi.phi_value;
    let buffer_before = e.prediction_tension.error_buffer.len();
    let pos_before = (
        e.semantic_vortex.current_position.x,
        e.semantic_vortex.current_position.y,
        e.semantic_vortex.current_position.z,
    );
    let boredom_before = e.attention_wandering.boredom_level;

    let bogus = "bogus".to_string();
    assert_eq!(e.update_rhythm(&bogus, SECOND), Err("Unknown rhythm type".to_string()));
    let sampled = e.get_rhythm_data(&bogus, 1);
    assert!(matches!(sampled, Err(ref m) if m == "Unknown rhythm type"));

    let phases_after: Vec<i64> = e.multi_temporal.oscillators.iter().map(|o| o.phase).collect();
    assert_eq!(phases_before, phases_after);
    assert_eq!(e.critical_phi.phi_value, phi_before);
    assert_eq!(e.prediction_tension.error_buffer.len(), buffer_before);
    assert_eq!(
        (
            e.semantic_vortex.current_position.x,
            e.semantic_vortex.current_position.y,
            e.semantic_vortex.current_position.z,
        ),
        pos_before
    );
    assert_eq!(e.attention_wandering.boredom_level, boredom_before);
}

#[test]
fn empty_identifier_is_rejected() {
    let mut e = engine();
    assert!(e.update_rhythm(&String::new(), SECOND).is_err());
    assert!(e.get_rhythm_data(&String::new(), 0).is_err());
}

#[test]
fn updates_on_different_models_do_not_interfere() {
    let mut e = engine();
    assert_eq!(e.update_rhythm(&"multi_temporal".to_string(), SECOND), Ok(()));
    assert_eq!(e.update_rhythm(&"prediction_tension".to_string(), SECOND), Ok(()));
    // The oscillator clock advanced, the tension buffer grew, and the three
    // untouched models still hold their initial state.
    assert_eq!(e.multi_temporal.time, SECOND);
    assert_eq!(e.prediction_tension.error_buffer.len(), 1);
    assert_eq!(e.critical_phi.phi_value, 500_000);
    assert!(!e.critical_phi.avalanche_active);
    assert_eq!(e.semantic_vortex.current_position.x, 0);
    assert_eq!(e.attention_wandering.boredom_level, 0);
}

#[test]
fn repeated_updates_accumulate_exactly() {
    let mut e = engine();
    let key = "multi_temporal".to_string();
    assert_eq!(e.update_rhythm(&key, SECOND), Ok(()));
    assert_eq!(e.update_rhythm(&key, SECOND), Ok(()));
    assert_eq!(e.multi_temporal.time, 2 * SECOND);
}

#[test]
fn every_known_identifier_samples_with_its_shape() {
    let e = engine();
    let cases: [(&str, usize); 5] = [
        ("multi_temporal", 3),
        ("critical_phi", 1),
        ("prediction_tension", 2),
        ("semantic_vortex", 4),
        ("attention_wandering", 4),
    ];
    for (name, value_count) in cases {
        let d = e.get_rhythm_data(&name.to_string(), 99).expect(name);
        assert_eq!(d.rhythm_type, name);
        assert_eq!(d.timestamp, 99);
        assert_eq!(d.values.len(), value_count, "values of {name}");
    }
}

#[test]
fn every_known_identifier_updates() {
    let mut e = engine();
    for name in [
        "multi_temporal",
        "critical_phi",
        "prediction_tension",
        "semantic_vortex",
        "attention_wandering",
    ] {
        assert_eq!(e.update_rhythm(&name.to_string(), SECOND), Ok(()), "{name}");
    }
    assert_eq!(e.multi_temporal.time, SECOND);
    assert_eq!(e.prediction_tension.error_buffer.len(), 1);
}

#[test]
fn default_tension_model_is_documented_initial_state() {
    let e = engine();
    assert_eq!(e.prediction_tension.tension_level, 0);
    assert_eq!(e.prediction_tension.release_threshold, 800_000);
    assert_eq!(e.prediction_tension.error_buffer.len(), 0);
    assert!(!e.prediction_tension.release_active);
}

#[test]
fn sampling_twice_without_update_agrees() {
    let e = engine();
    let names = [
        "multi_temporal",
        "critical_phi",
        "prediction_tension",
        "semantic_vortex",
        "attention_wandering",
    ];
    for name in names {
        let a = e.get_rhythm_data(&name.to_string(), 1).expect(name);
        let b = e.get_rhythm_data(&name.to_string(), 2).expect(name);
        assert_eq!(a.values, b.values, "values of {name}");
        assert_eq!(a.timestamp, 1);
        assert_eq!(b.timestamp, 2);
    }
    let a = e.get_rhythm_data(&"critical_phi".to_string(), 0).unwrap();
    let b = e.get_rhythm_data(&"critical_phi".to_string(), 0).unwrap();
    match (a.metadata, b.metadata) {
        (
            rhythm_engine::RhythmMetadata::CriticalPhi {
                avalanche_active: a1,
                matrix_complexity: m1,
                criticality: c1,
            },
            rhythm_engine::RhythmMetadata::CriticalPhi {
                avalanche_active: a2,
                matrix_complexity: m2,
                criticality: c2,
            },
        ) => {
            assert_eq!(a1, a2);
            assert_eq!(m1, m2);
            assert_eq!(c1, c2);
        }
        _ => panic!("wrong metadata variant"),
    }
}
