//! Oscillator network: coupled phase oscillators with sinusoidal coupling and
//! chaotic phase jitter. Oscillators are updated in order, each coupling term
//! reading the phases as they stand at that moment, exactly as the step
//! relation below states.

use vstd::prelude::*;
use crate::fixed::{
    SCALE, TAU_FP, DT_MAX, tdiv, fp_mul_spec, span_spec, sin_fp_spec, wrap_spec, fp_mul, span,
    sin_fp, wrap_tau, lemma_tdiv_range,
};
use crate::noise::draw_samples;
use crate::{RhythmData, RhythmMetadata};

verus! {

broadcast use vstd::string::group_string_axioms;

/// Number of coupled oscillators.
pub const OSC_COUNT: usize = 3;

#[derive(Clone, Copy)]
pub struct Oscillator {
    pub frequency: i64,
    pub phase: i64,
    pub amplitude: i64,
    pub chaos_factor: i64,
}

pub struct MultiTemporalRhythm {
    pub oscillators: Vec<Oscillator>,
    pub coupling_strength: i64,
    pub time: i64,
}

/// Fixed-point bounds every oscillator obeys; the phase always lies in
/// `[0, TAU_FP)`.
pub open spec fn osc_wf(o: Oscillator) -> bool {
    &&& 0 <= o.frequency <= SCALE
    &&& 0 <= o.phase < TAU_FP
    &&& 0 <= o.amplitude <= SCALE
    &&& 0 <= o.chaos_factor <= SCALE
}

/// Coupling felt by oscillator `i` from the first `j` oscillators:
/// the sum over the others of `coupling_strength * sin(phase_k - phase_i)`.
pub open spec fn coupling_sum(oscs: Seq<Oscillator>, i: int, cs: int, j: int) -> int
    decreases j,
{
    if j <= 0 {
        0
    } else {
        coupling_sum(oscs, i, cs, j - 1) + if j - 1 == i {
            0
        } else {
            fp_mul_spec(cs, sin_fp_spec(wrap_spec(oscs[j - 1].phase - oscs[i].phase)))
        }
    }
}

/// Oscillator `i` after one step against the phases in `oscs`: the phase
/// advances by its own frequency, the coupling felt from the others, and a
/// chaotic perturbation scaled by its chaos factor, then wraps into a turn.
pub open spec fn osc_next(oscs: Seq<Oscillator>, i: int, cs: int, dt: int, u: int) -> Oscillator {
    let o = oscs[i];
    let freq_term = tdiv((TAU_FP as int) * o.frequency * dt, (SCALE as int) * (SCALE as int));
    let coupling_term = tdiv(coupling_sum(oscs, i, cs, oscs.len() as int) * dt, SCALE as int);
    let chaos = fp_mul_spec(
        fp_mul_spec(span_spec(u, -(SCALE as int), SCALE as int), o.chaos_factor as int),
        10_000,
    );
    Oscillator {
        phase: wrap_spec(o.phase + freq_term + coupling_term + chaos) as i64,
        ..o
    }
}

/// The oscillator list after the first `k` oscillators have been stepped in
/// order, each against the list as its predecessors left it.
pub open spec fn oscs_step(oscs: Seq<Oscillator>, cs: int, dt: int, s: Seq<i64>, k: int) -> Seq<
    Oscillator,
>
    decreases k,
{
    if k <= 0 {
        oscs
    } else {
        let prev = oscs_step(oscs, cs, dt, s, k - 1);
        prev.update(k - 1, osc_next(prev, k - 1, cs, dt, s[k - 1] as int))
    }
}

/// Cumulative time after a step, saturating at the representation limit.
pub open spec fn advance_time(t: int, dt: int) -> int {
    if t + dt <= 0x7fff_ffff_ffff_ffff {
        t + dt
    } else {
        0x7fff_ffff_ffff_ffff
    }
}

impl MultiTemporalRhythm {
    pub open spec fn wf(self) -> bool {
        &&& self.oscillators@.len() == OSC_COUNT
        &&& (forall|i: int| 0 <= i < OSC_COUNT ==> osc_wf(#[trigger] self.oscillators@[i]))
        &&& 0 <= self.coupling_strength <= SCALE
        &&& 0 <= self.time
    }

    /// Exactly how one update with time step `dt` and unit samples `s`
    /// (one per oscillator) takes `pre` to `post`.
    pub open spec fn steps_to(pre: Self, post: Self, dt: int, s: Seq<i64>) -> bool {
        &&& post.oscillators@ == oscs_step(
            pre.oscillators@,
            pre.coupling_strength as int,
            dt,
            s,
            OSC_COUNT as int,
        )
        &&& post.coupling_strength == pre.coupling_strength
        &&& post.time == advance_time(pre.time as int, dt)
    }

    /// Advance the network by `delta_time` micro-seconds, consuming one unit
    /// noise sample per oscillator.
    pub fn update_with_noise(&mut self, delta_time: i64, samples: &Vec<i64>)
        requires
            old(self).wf(),
            0 <= delta_time <= DT_MAX,
            samples@.len() >= OSC_COUNT,
            forall|i: int| 0 <= i < samples@.len() ==> 0 <= #[trigger] samples@[i] < SCALE,
        ensures
            final(self).wf(),
            Self::steps_to(*old(self), *final(self), delta_time as int, samples@),
    {
        if self.time <= 0x7fff_ffff_ffff_ffff - delta_time {
            self.time = self.time + delta_time;
        } else {
            self.time = 0x7fff_ffff_ffff_ffff;
        }
        let ghost orig = old(self).oscillators@;
        let ghost cs_g = self.coupling_strength as int;
        let mut i: usize = 0;
        while i < OSC_COUNT
            invariant
                0 <= i <= OSC_COUNT,
                self.coupling_strength == old(self).coupling_strength,
                self.time == advance_time(old(self).time as int, delta_time as int),
                0 <= self.coupling_strength <= SCALE,
                0 <= delta_time <= DT_MAX,
                samples@.len() >= OSC_COUNT,
                forall|k: int| 0 <= k < samples@.len() ==> 0 <= #[trigger] samples@[k] < SCALE,
                orig == old(self).oscillators@,
                cs_g == self.coupling_strength as int,
                self.oscillators@.len() == OSC_COUNT,
                old(self).wf(),
                forall|k: int| 0 <= k < OSC_COUNT ==> osc_wf(#[trigger] self.oscillators@[k]),
                self.oscillators@ == oscs_step(orig, cs_g, delta_time as int, samples@, i as int),
            decreases OSC_COUNT - i,
        {
            let ghost pre_seq = self.oscillators@;
            let base_phase = self.oscillators[i].phase;
            let mut coupling: i64 = 0;
            let mut j: usize = 0;
            while j < OSC_COUNT
                invariant
                    0 <= i < OSC_COUNT,
                    0 <= j <= OSC_COUNT,
                    pre_seq == self.oscillators@,
                    self.oscillators@.len() == OSC_COUNT,
                    forall|k: int|
                        0 <= k < OSC_COUNT ==> osc_wf(#[trigger] self.oscillators@[k]),
                    0 <= self.coupling_strength <= SCALE,
                    cs_g == self.coupling_strength as int,
                    base_phase == self.oscillators@[i as int].phase,
                    0 <= base_phase < TAU_FP,
                    coupling == coupling_sum(pre_seq, i as int, cs_g, j as int),
                    -(j as int) * SCALE <= coupling <= (j as int) * SCALE,
                decreases OSC_COUNT - j,
            {
                if j != i {
                    let other_phase = self.oscillators[j].phase;
                    let diff = wrap_tau((other_phase as i128) - (base_phase as i128));
                    let sv = sin_fp(diff);
                    proof {
                        assert(
                            -(SCALE as int) * (SCALE as int) <= self.coupling_strength as int
                                * sv <= (SCALE as int) * (SCALE as int)) by (nonlinear_arith)
                            requires
                                0 <= self.coupling_strength <= SCALE,
                                -SCALE <= sv <= SCALE,
                                SCALE == 1_000_000,
                        ;
                        lemma_tdiv_range(
                            self.coupling_strength as int * sv,
                            SCALE as int,
                            SCALE as int,
                        );
                    }
                    let term = fp_mul(self.coupling_strength, sv);
                    coupling = coupling + term;
                }
                j = j + 1;
            }
            let o_freq = self.oscillators[i].frequency;
            let o_chaos = self.oscillators[i].chaos_factor;
            proof {
                assert(0 <= (TAU_FP as int) * (o_freq as int) * (delta_time as int)
                    <= 6_283_186int * 1_000_000int * 1_000_000_000_000int) by (nonlinear_arith)
                    requires
                        0 <= o_freq <= 1_000_000,
                        0 <= delta_time <= 1_000_000_000_000,
                        TAU_FP == 6_283_186,
                ;
            }
            let freq_term: i128 = ((TAU_FP as i128) * (o_freq as i128) * (delta_time as i128))
                / ((SCALE as i128) * (SCALE as i128));
            proof {
                assert(-3_000_000int * 1_000_000_000_000int <= (coupling as int)
                    * (delta_time as int) <= 3_000_000int * 1_000_000_000_000int)
                    by (nonlinear_arith)
                    requires
                        -3_000_000 <= coupling <= 3_000_000,
                        0 <= delta_time <= 1_000_000_000_000,
                ;
            }
            let coupling_term: i128 = ((coupling as i128) * (delta_time as i128)) / (
            SCALE as i128);
            let sp = span(samples[i], -SCALE, SCALE);
            proof {
                assert(-(SCALE as int) * (SCALE as int) <= (sp as int) * o_chaos
                    <= (SCALE as int) * (SCALE as int)) by (nonlinear_arith)
                    requires
                        -SCALE <= sp < SCALE,
                        0 <= o_chaos <= SCALE,
                        SCALE == 1_000_000,
                ;
                lemma_tdiv_range((sp as int) * o_chaos, SCALE as int, SCALE as int);
            }
            let c1 = fp_mul(sp, o_chaos);
            proof {
                lemma_tdiv_range((c1 as int) * 10_000, SCALE as int, 10_000int);
            }
            let chaos = fp_mul(c1, 10_000);
            proof {
                lemma_tdiv_range(
                    (coupling as int) * (delta_time as int),
                    SCALE as int,
                    3_000_000_000_000int,
                );
                lemma_tdiv_range(
                    (TAU_FP as int) * (o_freq as int) * (delta_time as int),
                    (SCALE as int) * (SCALE as int),
                    6_283_186_000_000int,
                );
            }
            let new_phase = wrap_tau(
                (base_phase as i128) + freq_term + coupling_term + (chaos as i128),
            );
            let cur = self.oscillators[i];
            self.oscillators[i] = Oscillator { phase: new_phase, ..cur };
            proof {
                let k = i as int;
                assert(freq_term == tdiv(
                    (TAU_FP as int) * (pre_seq[k].frequency as int) * (delta_time as int),
                    (SCALE as int) * (SCALE as int),
                )) by {
                    lemma_tdiv_range(
                        (TAU_FP as int) * (o_freq as int) * (delta_time as int),
                        (SCALE as int) * (SCALE as int),
                        0x7fff_ffff_ffff_ffffint,
                    );
                }
                assert(self.oscillators@ =~= oscs_step(
                    orig,
                    cs_g,
                    delta_time as int,
                    samples@,
                    k + 1,
                )) by {
                    assert(oscs_step(orig, cs_g, delta_time as int, samples@, k + 1)
                        == pre_seq.update(
                        k,
                        osc_next(pre_seq, k, cs_g, delta_time as int, samples@[k] as int),
                    ));
                }
            }
            i = i + 1;
        }
    }

    /// Advance the network by `delta_time` micro-seconds with fresh uniform
    /// draws.
    pub fn update(&mut self, delta_time: i64)
        requires
            old(self).wf(),
            0 <= delta_time <= DT_MAX,
        ensures
            final(self).wf(),
            exists|s: Seq<i64>|
                s.len() == OSC_COUNT && (forall|i: int|
                    0 <= i < s.len() ==> 0 <= #[trigger] s[i] < SCALE)
                    && #[trigger] Self::steps_to(*old(self), *final(self), delta_time as int, s),
    {
        let samples = draw_samples(OSC_COUNT);
        self.update_with_noise(delta_time, &samples);
        proof {
            assert(samples@.len() == OSC_COUNT && (forall|i: int|
                0 <= i < samples@.len() ==> 0 <= #[trigger] samples@[i] < SCALE)
                && Self::steps_to(*old(self), *self, delta_time as int, samples@));
        }
    }

    /// Project the current state into an immutable snapshot: one instantaneous
    /// displacement `amplitude * sin(phase)` per oscillator, with the raw
    /// phase list, coupling strength and accumulated time as diagnostics.
    pub fn get_current_state(&self, timestamp: i64) -> (r: RhythmData)
        requires
            self.wf(),
        ensures
            r.rhythm_type@ == "multi_temporal"@,
            r.timestamp == timestamp,
            r.values@.len() == OSC_COUNT,
            forall|i: int|
                0 <= i < OSC_COUNT ==> #[trigger] r.values@[i] == fp_mul_spec(
                    self.oscillators@[i].amplitude as int,
                    sin_fp_spec(self.oscillators@[i].phase as int),
                ),
            r.metadata matches RhythmMetadata::MultiTemporal { phases, coupling_strength, time }
                && phases@ == phases_of(self.oscillators@)
                && coupling_strength == self.coupling_strength
                && time == self.time,
    {
        let mut values: Vec<i64> = Vec::new();
        let mut phases: Vec<i64> = Vec::new();
        let mut i: usize = 0;
        while i < OSC_COUNT
            invariant
                0 <= i <= OSC_COUNT,
                self.wf(),
                values@.len() == i,
                phases@.len() == i,
                forall|k: int|
                    0 <= k < i ==> #[trigger] values@[k] == fp_mul_spec(
                        self.oscillators@[k].amplitude as int,
                        sin_fp_spec(self.oscillators@[k].phase as int),
                    ),
                forall|k: int| 0 <= k < i ==> #[trigger] phases@[k] == self.oscillators@[k].phase,
            decreases OSC_COUNT - i,
        {
            let o = self.oscillators[i];
            let sv = sin_fp(o.phase);
            proof {
                assert(-(SCALE as int) * (SCALE as int) <= (o.amplitude as int) * sv
                    <= (SCALE as int) * (SCALE as int)) by (nonlinear_arith)
                    requires
                        0 <= o.amplitude <= SCALE,
                        -SCALE <= sv <= SCALE,
                        SCALE == 1_000_000,
                ;
                lemma_tdiv_range((o.amplitude as int) * sv, SCALE as int, SCALE as int);
            }
            values.push(fp_mul(o.amplitude, sv));
            phases.push(o.phase);
            i = i + 1;
        }
        proof {
            assert(phases@ =~= phases_of(self.oscillators@));
        }
        RhythmData {
            rhythm_type: "multi_temporal".to_string(),
            timestamp,
            values,
            metadata: RhythmMetadata::MultiTemporal {
                phases,
                coupling_strength: self.coupling_strength,
                time: self.time,
            },
        }
    }
}

/// Phase-wrap law: every phase a well-formed network holds, and hence every
/// phase a snapshot reports, lies in `[0, TAU_FP)`.
pub proof fn lemma_phase_wrap(m: MultiTemporalRhythm)
    requires
        m.wf(),
    ensures
        forall|i: int|
            0 <= i < m.oscillators@.len() ==> 0 <= (#[trigger] m.oscillators@[i]).phase
                < TAU_FP,
{
}

/// The raw phase list of the network.
pub open spec fn phases_of(oscs: Seq<Oscillator>) -> Seq<i64> {
    Seq::new(oscs.len(), |i: int| oscs[i].phase)
}

impl Default for MultiTemporalRhythm {
    /// The documented initial network: three oscillators at frequencies 0.1,
    /// 0.01 and 0.001 with phases 0, a quarter turn and a half turn of pi,
    /// amplitudes 1.0, 0.8 and 0.6, chaos factors 0.3, 0.5 and 0.7, coupling
    /// strength 0.2, at time zero.
    fn default() -> (r: Self)
        ensures
            r.wf(),
            r.time == 0,
            r.coupling_strength == 200_000,
            r.oscillators@.len() == OSC_COUNT,
            r.oscillators@[0] == (Oscillator {
                frequency: 100_000,
                phase: 0,
                amplitude: 1_000_000,
                chaos_factor: 300_000,
            }),
            r.oscillators@[1] == (Oscillator {
                frequency: 10_000,
                phase: 785_398,
                amplitude: 800_000,
                chaos_factor: 500_000,
            }),
            r.oscillators@[2] == (Oscillator {
                frequency: 1_000,
                phase: 1_570_796,
                amplitude: 600_000,
                chaos_factor: 700_000,
            }),
    {
        let mut oscillators: Vec<Oscillator> = Vec::new();
        oscillators.push(Oscillator {
            frequency: 100_000,
            phase: 0,
            amplitude: 1_000_000,
            chaos_factor: 300_000,
        });
        oscillators.push(Oscillator {
            frequency: 10_000,
            phase: 785_398,
            amplitude: 800_000,
            chaos_factor: 500_000,
        });
        oscillators.push(Oscillator {
            frequency: 1_000,
            phase: 1_570_796,
            amplitude: 600_000,
            chaos_factor: 700_000,
        });
        Self { oscillators, coupling_strength: 200_000, time: 0 }
    }
}

} // verus!
