//! Rhythm simulation engine: five independent nonlinear dynamical models
//! (coupled phase oscillators, self-organized criticality, tension/release,
//! attractor/repeller vortex flow, and wander/focus attention), advanced and
//! sampled through a uniform registry interface.
//!
//! All state is held in fixed-point micro-units (`fixed::SCALE` stands for
//! 1.0), so every update rule, clamp and regime transition is stated and
//! proved exactly. Random perturbation is injectable: each model's
//! `update_with_noise` takes the uniform samples it consumes as plain
//! arguments, and the unseeded `update` draws them from the process-wide
//! generator.

use vstd::prelude::*;

pub mod attention_wandering;
pub mod critical_phi;
pub mod engine;
pub mod fixed;
pub mod multi_temporal;
pub mod noise;
pub mod prediction_tension;
pub mod semantic_vortex;

pub use attention_wandering::AttentionWandering;
pub use critical_phi::CriticalPhi;
pub use engine::RhythmEngine;
pub use multi_temporal::MultiTemporalRhythm;
pub use prediction_tension::PredictionTension;
pub use semantic_vortex::SemanticVortex;

verus! {

/// A point of the attention plane, in micro-units.
#[derive(Clone, Copy)]
pub struct Point2 {
    pub x: i64,
    pub y: i64,
}

/// A point or vector of the vortex space, in micro-units.
#[derive(Clone, Copy)]
pub struct Vec3 {
    pub x: i64,
    pub y: i64,
    pub z: i64,
}

/// Model-specific diagnostic fields reported by a snapshot.
pub enum RhythmMetadata {
    MultiTemporal { phases: Vec<i64>, coupling_strength: i64, time: i64 },
    CriticalPhi { avalanche_active: bool, matrix_complexity: i64, criticality: i64 },
    PredictionTension { release_active: bool, buffer_size: usize, variance: i64 },
    SemanticVortex { velocity: Vec3, num_attractors: usize, num_repellers: usize, position_magnitude: i64 },
    AttentionWandering { focused: bool, num_targets: usize, focus_duration: i64, targets: Vec<Point2> },
}

/// An immutable, timestamped projection of one model's state.
///
/// `timestamp` is in micro-seconds, `values` in micro-units.
pub struct RhythmData {
    pub rhythm_type: String,
    pub timestamp: i64,
    pub values: Vec<i64>,
    pub metadata: RhythmMetadata,
}

} // verus!
