//! Simulation registry: one long-lived instance of each rhythm model behind a
//! uniform string-keyed interface. Unknown identifiers fail with the one
//! user-visible error and mutate nothing; an update of one model leaves every
//! other model exactly as it was.

use vstd::prelude::*;
use crate::fixed::{SCALE, DT_MAX, fp_mul_spec, sin_fp_spec};
use crate::multi_temporal::{MultiTemporalRhythm, OSC_COUNT, phases_of};
use crate::critical_phi::{CriticalPhi, matrix_sum};
use crate::prediction_tension::{PredictionTension, variance_of};
use crate::semantic_vortex::{SemanticVortex, sqrt_floor};
use crate::attention_wandering::{AttentionWandering, focus_strength_of};
use crate::{RhythmData, RhythmMetadata};

verus! {

broadcast use vstd::string::group_string_axioms;

pub struct RhythmEngine {
    pub multi_temporal: MultiTemporalRhythm,
    pub critical_phi: CriticalPhi,
    pub prediction_tension: PredictionTension,
    pub semantic_vortex: SemanticVortex,
    pub attention_wandering: AttentionWandering,
}

/// The fixed set of model identifiers the registry resolves.
pub open spec fn known_rhythm(s: Seq<char>) -> bool {
    ||| s == "multi_temporal"@
    ||| s == "critical_phi"@
    ||| s == "prediction_tension"@
    ||| s == "semantic_vortex"@
    ||| s == "attention_wandering"@
}

/// The five model identifiers are pairwise distinct character sequences.
proof fn lemma_keys_distinct()
    ensures
        "multi_temporal"@ != "critical_phi"@,
        "multi_temporal"@ != "prediction_tension"@,
        "multi_temporal"@ != "semantic_vortex"@,
        "multi_temporal"@ != "attention_wandering"@,
        "critical_phi"@ != "multi_temporal"@,
        "critical_phi"@ != "prediction_tension"@,
        "critical_phi"@ != "semantic_vortex"@,
        "critical_phi"@ != "attention_wandering"@,
        "prediction_tension"@ != "multi_temporal"@,
        "prediction_tension"@ != "critical_phi"@,
        "prediction_tension"@ != "semantic_vortex"@,
        "prediction_tension"@ != "attention_wandering"@,
        "semantic_vortex"@ != "multi_temporal"@,
        "semantic_vortex"@ != "critical_phi"@,
        "semantic_vortex"@ != "prediction_tension"@,
        "semantic_vortex"@ != "attention_wandering"@,
        "attention_wandering"@ != "multi_temporal"@,
        "attention_wandering"@ != "critical_phi"@,
        "attention_wandering"@ != "prediction_tension"@,
        "attention_wandering"@ != "semantic_vortex"@,
{
    reveal_strlit("multi_temporal");
    reveal_strlit("critical_phi");
    reveal_strlit("prediction_tension");
    reveal_strlit("semantic_vortex");
    reveal_strlit("attention_wandering");
    assert("multi_temporal"@.len() == 14);
    assert("critical_phi"@.len() == 12);
    assert("prediction_tension"@.len() == 18);
    assert("semantic_vortex"@.len() == 15);
    assert("attention_wandering"@.len() == 19);
}

impl RhythmEngine {
    pub open spec fn wf(self) -> bool {
        &&& self.multi_temporal.wf()
        &&& self.critical_phi.wf()
        &&& self.prediction_tension.wf()
        &&& self.semantic_vortex.wf()
        &&& self.attention_wandering.wf()
    }

    /// Advance the named model by `delta_time` micro-seconds with fresh
    /// uniform noise. An unknown identifier returns the one user-visible
    /// error and leaves the whole registry untouched; a known one advances
    /// exactly that model and leaves the four others exactly as they were.
    #[verifier::rlimit(100)]
    pub fn update_rhythm(&mut self, rhythm_type: &String, delta_time: i64) -> (r: Result<
        (),
        String,
    >)
        requires
            old(self).wf(),
            0 <= delta_time <= DT_MAX,
        ensures
            final(self).wf(),
            r is Ok <==> known_rhythm(rhythm_type@),
            !known_rhythm(rhythm_type@) ==> *final(self) == *old(self),
            r matches Err(e) ==> e@ == "Unknown rhythm type"@,
            rhythm_type@ == "multi_temporal"@ ==> *final(self) == (Self {
                multi_temporal: final(self).multi_temporal,
                ..*old(self)
            }) && (exists|s: Seq<i64>|
                s.len() == crate::multi_temporal::OSC_COUNT && (forall|i: int|
                    0 <= i < s.len() ==> 0 <= #[trigger] s[i] < SCALE)
                    && #[trigger] MultiTemporalRhythm::steps_to(
                    old(self).multi_temporal,
                    final(self).multi_temporal,
                    delta_time as int,
                    s,
                )),
            rhythm_type@ == "critical_phi"@ ==> *final(self) == (Self {
                critical_phi: final(self).critical_phi,
                ..*old(self)
            }) && (exists|s: Seq<i64>|
                s.len() == crate::critical_phi::NOISE_LEN && (forall|i: int|
                    0 <= i < s.len() ==> 0 <= #[trigger] s[i] < SCALE)
                    && #[trigger] CriticalPhi::steps_to(
                    old(self).critical_phi,
                    final(self).critical_phi,
                    delta_time as int,
                    s,
                )),
            rhythm_type@ == "prediction_tension"@ ==> *final(self) == (Self {
                prediction_tension: final(self).prediction_tension,
                ..*old(self)
            }) && (exists|u: int|
                0 <= u < SCALE && #[trigger] PredictionTension::steps_to(
                    old(self).prediction_tension,
                    final(self).prediction_tension,
                    delta_time as int,
                    u,
                )),
            rhythm_type@ == "semantic_vortex"@ ==> *final(self) == (Self {
                semantic_vortex: final(self).semantic_vortex,
                ..*old(self)
            }) && (exists|s: Seq<i64>|
                s.len() == crate::semantic_vortex::NOISE_LEN && (forall|i: int|
                    0 <= i < s.len() ==> 0 <= #[trigger] s[i] < SCALE)
                    && #[trigger] SemanticVortex::steps_to(
                    old(self).semantic_vortex,
                    final(self).semantic_vortex,
                    delta_time as int,
                    s,
                )),
            rhythm_type@ == "attention_wandering"@ ==> *final(self) == (Self {
                attention_wandering: final(self).attention_wandering,
                ..*old(self)
            }) && (exists|s: Seq<i64>|
                s.len() == crate::attention_wandering::NOISE_LEN && (forall|i: int|
                    0 <= i < s.len() ==> 0 <= #[trigger] s[i] < SCALE)
                    && #[trigger] AttentionWandering::steps_to(
                    old(self).attention_wandering,
                    final(self).attention_wandering,
                    delta_time as int,
                    s,
                )),
    {
        let key_mt = "multi_temporal".to_string();
        let key_cp = "critical_phi".to_string();
        let key_pt = "prediction_tension".to_string();
        let key_sv = "semantic_vortex".to_string();
        let key_aw = "attention_wandering".to_string();
        if *rhythm_type == key_mt {
            self.multi_temporal.update(delta_time);
            proof {
                lemma_keys_distinct();
                assert(*self == (Self { multi_temporal: self.multi_temporal, ..*old(self) }));
                let s0 = choose|s: Seq<i64>|
                    s.len() == crate::multi_temporal::OSC_COUNT && (forall|i: int|
                        0 <= i < s.len() ==> 0 <= #[trigger] s[i] < SCALE)
                        && #[trigger] MultiTemporalRhythm::steps_to(
                        old(self).multi_temporal,
                        self.multi_temporal,
                        delta_time as int,
                        s,
                    );
                assert(s0.len() == crate::multi_temporal::OSC_COUNT && (forall|i: int|
                    0 <= i < s0.len() ==> 0 <= #[trigger] s0[i] < SCALE)
                    && MultiTemporalRhythm::steps_to(old(self).multi_temporal, self.multi_temporal, delta_time as int, s0));
            }
            Ok(())
        } else if *rhythm_type == key_cp {
            self.critical_phi.update(delta_time);
            proof {
                lemma_keys_distinct();
                assert(*self == (Self { critical_phi: self.critical_phi, ..*old(self) }));
                let s0 = choose|s: Seq<i64>|
                    s.len() == crate::critical_phi::NOISE_LEN && (forall|i: int|
                        0 <= i < s.len() ==> 0 <= #[trigger] s[i] < SCALE)
                        && #[trigger] CriticalPhi::steps_to(
                        old(self).critical_phi,
                        self.critical_phi,
                        delta_time as int,
                        s,
                    );
                assert(s0.len() == crate::critical_phi::NOISE_LEN && (forall|i: int|
                    0 <= i < s0.len() ==> 0 <= #[trigger] s0[i] < SCALE)
                    && CriticalPhi::steps_to(old(self).critical_phi, self.critical_phi, delta_time as int, s0));
            }
            Ok(())
        } else if *rhythm_type == key_pt {
            self.prediction_tension.update(delta_time);
            proof {
                lemma_keys_distinct();
                assert(*self == (Self { prediction_tension: self.prediction_tension, ..*old(self) }));
                let u0 = choose|u: int|
                    0 <= u < SCALE && #[trigger] PredictionTension::steps_to(
                        old(self).prediction_tension,
                        self.prediction_tension,
                        delta_time as int,
                        u,
                    );
                assert(0 <= u0 < SCALE && PredictionTension::steps_to(
                    old(self).prediction_tension,
                    self.prediction_tension,
                    delta_time as int,
                    u0,
                ));
            }
            Ok(())
        } else if *rhythm_type == key_sv {
            self.semantic_vortex.update(delta_time);
            proof {
                lemma_keys_distinct();
                assert(*self == (Self { semantic_vortex: self.semantic_vortex, ..*old(self) }));
                let s0 = choose|s: Seq<i64>|
                    s.len() == crate::semantic_vortex::NOISE_LEN && (forall|i: int|
                        0 <= i < s.len() ==> 0 <= #[trigger] s[i] < SCALE)
                        && #[trigger] SemanticVortex::steps_to(
                        old(self).semantic_vortex,
                        self.semantic_vortex,
                        delta_time as int,
                        s,
                    );
                assert(s0.len() == crate::semantic_vortex::NOISE_LEN && (forall|i: int|
                    0 <= i < s0.len() ==> 0 <= #[trigger] s0[i] < SCALE)
                    && SemanticVortex::steps_to(old(self).semantic_vortex, self.semantic_vortex, delta_time as int, s0));
            }
            Ok(())
        } else if *rhythm_type == key_aw {
            self.attention_wandering.update(delta_time);
            proof {
                lemma_keys_distinct();
                assert(*self == (Self { attention_wandering: self.attention_wandering, ..*old(self) }));
                let s0 = choose|s: Seq<i64>|
                    s.len() == crate::attention_wandering::NOISE_LEN && (forall|i: int|
                        0 <= i < s.len() ==> 0 <= #[trigger] s[i] < SCALE)
                        && #[trigger] AttentionWandering::steps_to(
                        old(self).attention_wandering,
                        self.attention_wandering,
                        delta_time as int,
                        s,
                    );
                assert(s0.len() == crate::attention_wandering::NOISE_LEN && (forall|i: int|
                    0 <= i < s0.len() ==> 0 <= #[trigger] s0[i] < SCALE)
                    && AttentionWandering::steps_to(old(self).attention_wandering, self.attention_wandering, delta_time as int, s0));
            }
            Ok(())
        } else {
            proof {
                lemma_keys_distinct();
            }
            Err("Unknown rhythm type".to_string())
        }
    }

    /// Sample the named model at the caller-supplied timestamp. An unknown
    /// identifier returns the one user-visible error; sampling never mutates
    /// any model.
    #[verifier::rlimit(100)]
    pub fn get_rhythm_data(&self, rhythm_type: &String, timestamp: i64) -> (r: Result<
        RhythmData,
        String,
    >)
        requires
            self.wf(),
        ensures
            r is Ok <==> known_rhythm(rhythm_type@),
            r matches Err(e) ==> e@ == "Unknown rhythm type"@,
            r matches Ok(d) ==> d.rhythm_type@ == rhythm_type@ && d.timestamp == timestamp,
            rhythm_type@ == "multi_temporal"@ ==> (r matches Ok(d) ==> d.values@.len()
                == OSC_COUNT && (forall|i: int|
                0 <= i < OSC_COUNT ==> #[trigger] d.values@[i] == fp_mul_spec(
                    self.multi_temporal.oscillators@[i].amplitude as int,
                    sin_fp_spec(self.multi_temporal.oscillators@[i].phase as int),
                )) && (d.metadata matches RhythmMetadata::MultiTemporal {
                phases,
                coupling_strength,
                time,
            } && phases@ == phases_of(self.multi_temporal.oscillators@) && coupling_strength
                == self.multi_temporal.coupling_strength && time == self.multi_temporal.time)),
            rhythm_type@ == "critical_phi"@ ==> (r matches Ok(d) ==> d.values@ =~= seq![
                self.critical_phi.phi_value,
            ] && d.metadata == (RhythmMetadata::CriticalPhi {
                avalanche_active: self.critical_phi.avalanche_active,
                matrix_complexity: matrix_sum(self.critical_phi.integration_matrix@) as i64,
                criticality: (if self.critical_phi.phi_value >= self.critical_phi.phi_target {
                    self.critical_phi.phi_value - self.critical_phi.phi_target
                } else {
                    self.critical_phi.phi_target - self.critical_phi.phi_value
                }) as i64,
            })),
            rhythm_type@ == "prediction_tension"@ ==> (r matches Ok(d) ==> d.values@ =~= seq![
                self.prediction_tension.tension_level,
                self.prediction_tension.release_intensity,
            ] && d.metadata == (RhythmMetadata::PredictionTension {
                release_active: self.prediction_tension.release_active,
                buffer_size: self.prediction_tension.error_buffer@.len() as usize,
                variance: variance_of(self.prediction_tension.error_buffer@) as i64,
            })),
            rhythm_type@ == "semantic_vortex"@ ==> (r matches Ok(d) ==> d.values@ =~= seq![
                self.semantic_vortex.current_position.x,
                self.semantic_vortex.current_position.y,
                self.semantic_vortex.current_position.z,
                sqrt_floor(
                    (self.semantic_vortex.velocity.x as int) * (
                    self.semantic_vortex.velocity.x as int) + (
                    self.semantic_vortex.velocity.y as int) * (
                    self.semantic_vortex.velocity.y as int) + (
                    self.semantic_vortex.velocity.z as int) * (
                    self.semantic_vortex.velocity.z as int),
                ) as i64,
            ] && d.metadata == (RhythmMetadata::SemanticVortex {
                velocity: self.semantic_vortex.velocity,
                num_attractors: self.semantic_vortex.attractors@.len() as usize,
                num_repellers: self.semantic_vortex.repellers@.len() as usize,
                position_magnitude: sqrt_floor(
                    (self.semantic_vortex.current_position.x as int) * (
                    self.semantic_vortex.current_position.x as int) + (
                    self.semantic_vortex.current_position.y as int) * (
                    self.semantic_vortex.current_position.y as int) + (
                    self.semantic_vortex.current_position.z as int) * (
                    self.semantic_vortex.current_position.z as int),
                ) as i64,
            })),
            rhythm_type@ == "attention_wandering"@ ==> (r matches Ok(d) ==> d.values@ =~= seq![
                self.attention_wandering.attention_position.x,
                self.attention_wandering.attention_position.y,
                self.attention_wandering.boredom_level,
                focus_strength_of(
                    self.attention_wandering.current_focus,
                    self.attention_wandering.boredom_level as int,
                ) as i64,
            ] && (d.metadata matches RhythmMetadata::AttentionWandering {
                focused,
                num_targets,
                focus_duration,
                targets,
            } && focused == (self.attention_wandering.current_focus matches Some(_))
                && num_targets == self.attention_wandering.attention_targets@.len()
                && focus_duration == self.attention_wandering.focus_duration && targets@
                == self.attention_wandering.attention_targets@)),
    {
        let key_mt = "multi_temporal".to_string();
        let key_cp = "critical_phi".to_string();
        let key_pt = "prediction_tension".to_string();
        let key_sv = "semantic_vortex".to_string();
        let key_aw = "attention_wandering".to_string();
        if *rhythm_type == key_mt {
            proof {
                lemma_keys_distinct();
            }
            Ok(self.multi_temporal.get_current_state(timestamp))
        } else if *rhythm_type == key_cp {
            proof {
                lemma_keys_distinct();
            }
            Ok(self.critical_phi.get_current_state(timestamp))
        } else if *rhythm_type == key_pt {
            proof {
                lemma_keys_distinct();
            }
            Ok(self.prediction_tension.get_current_state(timestamp))
        } else if *rhythm_type == key_sv {
            proof {
                lemma_keys_distinct();
            }
            Ok(self.semantic_vortex.get_current_state(timestamp))
        } else if *rhythm_type == key_aw {
            proof {
                lemma_keys_distinct();
            }
            Ok(self.attention_wandering.get_current_state(timestamp))
        } else {
            proof {
                lemma_keys_distinct();
            }
            Err("Unknown rhythm type".to_string())
        }
    }
}

impl Default for RhythmEngine {
    /// One fresh instance of every model, each in its documented initial
    /// state.
    fn default() -> (r: Self)
        ensures
            r.wf(),
            !r.prediction_tension.release_active,
            r.prediction_tension.tension_level == 0,
            r.prediction_tension.error_buffer@.len() == 0,
    {
        Self {
            multi_temporal: MultiTemporalRhythm::default(),
            critical_phi: CriticalPhi::default(),
            prediction_tension: PredictionTension::default(),
            semantic_vortex: SemanticVortex::default(),
            attention_wandering: AttentionWandering::default(),
        }
    }
}

} // verus!
