//! Criticality model: a scalar order parameter switching between smooth
//! homeostatic drift and discrete avalanche bursts, beside a slowly evolving
//! pairwise integration matrix.

use vstd::prelude::*;
use crate::fixed::{
    SCALE, DT_MAX, clamp_spec, fp_mul_spec, span_spec, clamp_i64, fp_mul, span, sum_seq, sum_vec,
    lemma_tdiv_range,
};
use crate::noise::draw_samples;
use crate::{RhythmData, RhythmMetadata};

verus! {

broadcast use vstd::string::group_string_axioms;

/// Side length of the integration matrix.
pub const MATRIX_SIZE: usize = 5;

/// Upper clamp of the order parameter: 1.5 in micro-units.
pub const PHI_MAX: i64 = 1_500_000;

/// Unit noise samples one update consumes: one for phi, one for the
/// avalanche duration draw, and one per matrix cell in row-major order.
pub const NOISE_LEN: usize = 27;

pub struct CriticalPhi {
    pub phi_value: i64,
    pub phi_target: i64,
    pub fluctuation: i64,
    pub avalanche_threshold: i64,
    pub avalanche_active: bool,
    pub avalanche_duration: i64,
    pub integration_matrix: Vec<Vec<i64>>,
}

/// Phi movement of one avalanche step: a large uniform burst, ten times a
/// draw from `[-0.5, 0.5)`, scaled by the time step.
pub open spec fn burst_delta(u: int, dt: int) -> int {
    10 * fp_mul_spec(span_spec(u, -500_000, 500_000), dt)
}

/// Phi movement of one normal step: proportional drift toward the target
/// (rate 0.1) plus uniform noise scaled by the fluctuation magnitude,
/// integrated over the time step.
pub open spec fn drift_noise_delta(phi: int, target: int, fluctuation: int, u: int, dt: int) -> int {
    fp_mul_spec(
        fp_mul_spec(target - phi, 100_000) + fp_mul_spec(span_spec(u, -(SCALE as int), SCALE as int), fluctuation),
        dt,
    )
}

/// One integration-matrix cell after its small symmetric noise and clamp.
pub open spec fn cell_next(v: int, u: int, dt: int) -> int {
    clamp_spec(v + fp_mul_spec(span_spec(u, -10_000, 10_000), dt), 0, SCALE as int)
}

/// The unit sample feeding matrix cell `(i, j)`.
pub open spec fn cell_noise(s: Seq<i64>, i: int, j: int) -> int {
    s[2 + 5 * i + j] as int
}

impl CriticalPhi {
    /// Structural invariant: phi clamped, fixed reference scalars, a square
    /// matrix with clamped entries and an untouched zero diagonal, and a
    /// bounded remaining duration while an avalanche runs.
    pub open spec fn wf(self) -> bool {
        &&& 0 <= self.phi_value <= PHI_MAX
        &&& self.phi_target == 700_000
        &&& self.fluctuation == 100_000
        &&& self.avalanche_threshold == 850_000
        &&& self.integration_matrix@.len() == MATRIX_SIZE
        &&& (forall|i: int|
            0 <= i < MATRIX_SIZE ==> (#[trigger] self.integration_matrix@[i])@.len()
                == MATRIX_SIZE)
        &&& (forall|i: int, j: int|
            0 <= i < MATRIX_SIZE && 0 <= j < MATRIX_SIZE ==> 0
                <= #[trigger] self.integration_matrix@[i]@[j] <= SCALE)
        &&& (forall|i: int|
            0 <= i < MATRIX_SIZE ==> #[trigger] self.integration_matrix@[i]@[i] == 0)
        &&& (self.avalanche_active ==> 0 < self.avalanche_duration <= 2_000_000)
    }

    /// Exactly how one update with time step `dt` and unit samples `s`
    /// takes `pre` to `post`.
    pub open spec fn steps_to(pre: Self, post: Self, dt: int, s: Seq<i64>) -> bool {
        &&& post.phi_target == pre.phi_target
        &&& post.fluctuation == pre.fluctuation
        &&& post.avalanche_threshold == pre.avalanche_threshold
        &&& if pre.avalanche_active {
            &&& post.avalanche_duration == pre.avalanche_duration - dt
            &&& if pre.avalanche_duration - dt <= 0 {
                &&& !post.avalanche_active
                &&& post.phi_value == pre.phi_target
            } else {
                &&& post.avalanche_active
                &&& post.phi_value == clamp_spec(
                    pre.phi_value + burst_delta(s[0] as int, dt),
                    0,
                    PHI_MAX as int,
                )
            }
        } else {
            let phi1 = pre.phi_value + drift_noise_delta(
                pre.phi_value as int,
                pre.phi_target as int,
                pre.fluctuation as int,
                s[0] as int,
                dt,
            );
            &&& post.phi_value == clamp_spec(phi1, 0, PHI_MAX as int)
            &&& if phi1 > pre.avalanche_threshold {
                &&& post.avalanche_active
                &&& post.avalanche_duration == span_spec(s[1] as int, 500_000, 2_000_000)
            } else {
                &&& !post.avalanche_active
                &&& post.avalanche_duration == pre.avalanche_duration
            }
        }
        &&& post.integration_matrix@.len() == MATRIX_SIZE
        &&& (forall|i: int|
            0 <= i < MATRIX_SIZE ==> (#[trigger] post.integration_matrix@[i])@.len()
                == MATRIX_SIZE)
        &&& (forall|i: int, j: int|
            0 <= i < MATRIX_SIZE && 0 <= j < MATRIX_SIZE
                ==> #[trigger] post.integration_matrix@[i]@[j] == (if i == j {
                pre.integration_matrix@[i]@[j] as int
            } else {
                cell_next(pre.integration_matrix@[i]@[j] as int, cell_noise(s, i, j), dt)
            }))
    }

    /// Advance the model by `delta_time` micro-seconds, consuming the given
    /// unit noise samples.
    pub fn update_with_noise(&mut self, delta_time: i64, samples: &Vec<i64>)
        requires
            old(self).wf(),
            0 <= delta_time <= DT_MAX,
            samples@.len() >= NOISE_LEN,
            forall|i: int| 0 <= i < samples@.len() ==> 0 <= #[trigger] samples@[i] < SCALE,
        ensures
            final(self).wf(),
            Self::steps_to(*old(self), *final(self), delta_time as int, samples@),
    {
        let mut i: usize = 0;
        while i < MATRIX_SIZE
            invariant
                0 <= i <= MATRIX_SIZE,
                *self == (Self { integration_matrix: self.integration_matrix, ..*old(self) }),
                old(self).wf(),
                0 <= delta_time <= DT_MAX,
                samples@.len() >= NOISE_LEN,
                forall|k: int| 0 <= k < samples@.len() ==> 0 <= #[trigger] samples@[k] < SCALE,
                self.integration_matrix@.len() == MATRIX_SIZE,
                forall|a: int|
                    0 <= a < MATRIX_SIZE ==> (#[trigger] self.integration_matrix@[a])@.len()
                        == MATRIX_SIZE,
                forall|a: int, b: int|
                    i <= a < MATRIX_SIZE && 0 <= b < MATRIX_SIZE
                        ==> #[trigger] self.integration_matrix@[a]@[b]
                        == old(self).integration_matrix@[a]@[b],
                forall|a: int, b: int|
                    0 <= a < i && 0 <= b < MATRIX_SIZE
                        ==> #[trigger] self.integration_matrix@[a]@[b] == (if a == b {
                        old(self).integration_matrix@[a]@[b] as int
                    } else {
                        cell_next(
                            old(self).integration_matrix@[a]@[b] as int,
                            cell_noise(samples@, a, b),
                            delta_time as int,
                        )
                    }),
                forall|a: int, b: int|
                    0 <= a < MATRIX_SIZE && 0 <= b < MATRIX_SIZE ==> 0
                        <= #[trigger] self.integration_matrix@[a]@[b] <= SCALE,
                forall|a: int|
                    0 <= a < MATRIX_SIZE ==> #[trigger] self.integration_matrix@[a]@[a] == 0,
            decreases MATRIX_SIZE - i,
        {
            let mut j: usize = 0;
            while j < MATRIX_SIZE
                invariant
                    0 <= i < MATRIX_SIZE,
                    0 <= j <= MATRIX_SIZE,
                    *self == (Self { integration_matrix: self.integration_matrix, ..*old(self) }),
                    old(self).wf(),
                    0 <= delta_time <= DT_MAX,
                    samples@.len() >= NOISE_LEN,
                    forall|k: int|
                        0 <= k < samples@.len() ==> 0 <= #[trigger] samples@[k] < SCALE,
                    self.integration_matrix@.len() == MATRIX_SIZE,
                    forall|a: int|
                        0 <= a < MATRIX_SIZE ==> (#[trigger] self.integration_matrix@[a])@.len()
                            == MATRIX_SIZE,
                    forall|a: int, b: int|
                        i < a < MATRIX_SIZE && 0 <= b < MATRIX_SIZE
                            ==> #[trigger] self.integration_matrix@[a]@[b]
                            == old(self).integration_matrix@[a]@[b],
                    forall|b: int|
                        j <= b < MATRIX_SIZE ==> #[trigger] self.integration_matrix@[i as int]@[b]
                            == old(self).integration_matrix@[i as int]@[b],
                    forall|a: int, b: int|
                        0 <= a < i && 0 <= b < MATRIX_SIZE
                            ==> #[trigger] self.integration_matrix@[a]@[b] == (if a == b {
                            old(self).integration_matrix@[a]@[b] as int
                        } else {
                            cell_next(
                                old(self).integration_matrix@[a]@[b] as int,
                                cell_noise(samples@, a, b),
                                delta_time as int,
                            )
                        }),
                    forall|b: int|
                        0 <= b < j ==> #[trigger] self.integration_matrix@[i as int]@[b] == (if i as int == b {
                            old(self).integration_matrix@[i as int]@[b] as int
                        } else {
                            cell_next(
                                old(self).integration_matrix@[i as int]@[b] as int,
                                cell_noise(samples@, i as int, b),
                                delta_time as int,
                            )
                        }),
                    forall|a: int, b: int|
                        0 <= a < MATRIX_SIZE && 0 <= b < MATRIX_SIZE ==> 0
                            <= #[trigger] self.integration_matrix@[a]@[b] <= SCALE,
                    forall|a: int|
                        0 <= a < MATRIX_SIZE ==> #[trigger] self.integration_matrix@[a]@[a] == 0,
                decreases MATRIX_SIZE - j,
            {
                if i != j {
                    let u = samples[2 + 5 * i + j];
                    let spu = span(u, -10_000, 10_000);
                    proof {
                        assert(-10_000 * DT_MAX <= (spu as int) * delta_time <= 10_000 * DT_MAX)
                            by (nonlinear_arith)
                            requires
                                -10_000 <= spu < 10_000,
                                0 <= delta_time <= DT_MAX,
                                DT_MAX == 1_000_000_000_000,
                        ;
                        lemma_tdiv_range((spu as int) * delta_time, SCALE as int, 10_000_000_000int);
                    }
                    let bump = fp_mul(spu, delta_time);
                    let cur = self.integration_matrix[i][j];
                    let nv = clamp_i64(cur + bump, 0, SCALE);
                    self.integration_matrix[i][j] = nv;
                }
                j = j + 1;
            }
            i = i + 1;
        }
        if self.avalanche_active {
            let sp = span(samples[0], -500_000, 500_000);
            proof {
                assert(-500_000 * DT_MAX <= (sp as int) * delta_time <= 500_000 * DT_MAX)
                    by (nonlinear_arith)
                    requires
                        -500_000 <= sp < 500_000,
                        0 <= delta_time <= DT_MAX,
                        DT_MAX == 1_000_000_000_000,
                ;
                lemma_tdiv_range((sp as int) * delta_time, SCALE as int, 500_000_000_000int);
            }
            let burst = 10 * fp_mul(sp, delta_time);
            self.phi_value = clamp_i64(self.phi_value + burst, 0, PHI_MAX);
            self.avalanche_duration = self.avalanche_duration - delta_time;
            if self.avalanche_duration <= 0 {
                self.avalanche_active = false;
                self.phi_value = self.phi_target;
            }
        } else {
            proof {
                lemma_tdiv_range(
                    (self.phi_target - self.phi_value) as int * 100_000,
                    SCALE as int,
                    150_000int,
                );
            }
            let drift = fp_mul(self.phi_target - self.phi_value, 100_000);
            let sp = span(samples[0], -SCALE, SCALE);
            proof {
                assert(-(SCALE as int) * (100_000 as int) <= (sp as int) * self.fluctuation
                    <= (SCALE as int) * (100_000 as int)) by (nonlinear_arith)
                    requires
                        -SCALE <= sp < SCALE,
                        self.fluctuation == 100_000,
                        SCALE == 1_000_000,
                ;
                lemma_tdiv_range((sp as int) * self.fluctuation, SCALE as int, 100_000int);
            }
            let noise = fp_mul(sp, self.fluctuation);
            proof {
                assert(-250_000 * DT_MAX <= (drift + noise) * delta_time <= 250_000 * DT_MAX)
                    by (nonlinear_arith)
                    requires
                        -250_000 <= drift + noise <= 250_000,
                        0 <= delta_time <= DT_MAX,
                        DT_MAX == 1_000_000_000_000,
                ;
                lemma_tdiv_range(
                    (drift + noise) as int * delta_time,
                    SCALE as int,
                    250_000_000_000int,
                );
            }
            let delta = fp_mul(drift + noise, delta_time);
            let phi1 = self.phi_value + delta;
            self.phi_value = clamp_i64(phi1, 0, PHI_MAX);
            if phi1 > self.avalanche_threshold {
                self.avalanche_active = true;
                self.avalanche_duration = span(samples[1], 500_000, 2_000_000);
            }
        }
    }

    /// Advance the model by `delta_time` micro-seconds with fresh uniform
    /// draws.
    pub fn update(&mut self, delta_time: i64)
        requires
            old(self).wf(),
            0 <= delta_time <= DT_MAX,
        ensures
            final(self).wf(),
            exists|s: Seq<i64>|
                s.len() == NOISE_LEN && (forall|i: int|
                    0 <= i < s.len() ==> 0 <= #[trigger] s[i] < SCALE)
                    && #[trigger] Self::steps_to(*old(self), *final(self), delta_time as int, s),
    {
        let samples = draw_samples(NOISE_LEN);
        self.update_with_noise(delta_time, &samples);
        proof {
            assert(samples@.len() == NOISE_LEN && (forall|i: int|
                0 <= i < samples@.len() ==> 0 <= #[trigger] samples@[i] < SCALE)
                && Self::steps_to(*old(self), *self, delta_time as int, samples@));
        }
    }

    /// Project the current state into an immutable snapshot: phi as the one
    /// value, with the avalanche flag, total matrix complexity, and the
    /// distance from the critical target as diagnostics.
    pub fn get_current_state(&self, timestamp: i64) -> (r: RhythmData)
        requires
            self.wf(),
        ensures
            r.rhythm_type@ == "critical_phi"@,
            r.timestamp == timestamp,
            r.values@ =~= seq![self.phi_value],
            r.metadata == (RhythmMetadata::CriticalPhi {
                avalanche_active: self.avalanche_active,
                matrix_complexity: matrix_sum(self.integration_matrix@) as i64,
                criticality: (if self.phi_value >= self.phi_target {
                    self.phi_value - self.phi_target
                } else {
                    self.phi_target - self.phi_value
                }) as i64,
            }),
    {
        let complexity = self.matrix_complexity();
        let criticality = if self.phi_value >= self.phi_target {
            self.phi_value - self.phi_target
        } else {
            self.phi_target - self.phi_value
        };
        RhythmData {
            rhythm_type: "critical_phi".to_string(),
            timestamp,
            values: vec![self.phi_value],
            metadata: RhythmMetadata::CriticalPhi {
                avalanche_active: self.avalanche_active,
                matrix_complexity: complexity,
                criticality,
            },
        }
    }

    fn matrix_complexity(&self) -> (r: i64)
        requires
            self.wf(),
        ensures
            r == matrix_sum(self.integration_matrix@),
            0 <= r <= 25_000_000,
    {
        let mut acc: i64 = 0;
        let mut i: usize = 0;
        proof {
            assert(self.integration_matrix@.take(0) =~= Seq::<Vec<i64>>::empty());
        }
        while i < MATRIX_SIZE
            invariant
                0 <= i <= MATRIX_SIZE,
                self.wf(),
                acc == matrix_sum(self.integration_matrix@.take(i as int)),
                0 <= acc <= i * 5_000_000,
            decreases MATRIX_SIZE - i,
        {
            proof {
                assert(forall|k: int|
                    0 <= k < self.integration_matrix@[i as int]@.len() ==> 0
                        <= #[trigger] self.integration_matrix@[i as int]@[k] <= SCALE);
                assert(self.integration_matrix@[i as int]@.len() * (SCALE as int)
                    <= 5_000_000);
            }
            let row_sum = sum_vec(&self.integration_matrix[i], SCALE);
            proof {
                lemma_matrix_sum_take_step(self.integration_matrix@, i as int);
            }
            acc = acc + row_sum;
            i = i + 1;
        }
        proof {
            assert(self.integration_matrix@.take(MATRIX_SIZE as int)
                =~= self.integration_matrix@);
        }
        acc
    }
}

/// Clamp law: a well-formed model keeps phi within `[0, 1.5]` and every
/// integration-matrix cell within `[0, 1]`.
pub proof fn lemma_clamp_bounds(c: CriticalPhi)
    requires
        c.wf(),
    ensures
        0 <= c.phi_value <= PHI_MAX,
        forall|i: int, j: int|
            0 <= i < MATRIX_SIZE && 0 <= j < MATRIX_SIZE ==> 0
                <= #[trigger] c.integration_matrix@[i]@[j] <= SCALE,
{
}

/// Regime-transition law: crossing the avalanche threshold in the normal
/// regime starts an avalanche whose duration is drawn from `[0.5, 2.0)`;
/// once the remaining duration runs out the avalanche ends and phi returns
/// exactly to its target.
pub proof fn lemma_regime_transitions(pre: CriticalPhi, post: CriticalPhi, dt: int, s: Seq<i64>)
    requires
        pre.wf(),
        CriticalPhi::steps_to(pre, post, dt, s),
        0 <= s[1] < SCALE,
    ensures
        pre.avalanche_active && pre.avalanche_duration - dt <= 0 ==> !post.avalanche_active
            && post.phi_value == pre.phi_target,
        !pre.avalanche_active && pre.phi_value + drift_noise_delta(
            pre.phi_value as int,
            pre.phi_target as int,
            pre.fluctuation as int,
            s[0] as int,
            dt,
        ) > pre.avalanche_threshold ==> post.avalanche_active && 500_000
            <= post.avalanche_duration < 2_000_000,
{
    if !pre.avalanche_active {
        crate::fixed::lemma_span_range(s[1] as int, 500_000, 2_000_000);
    }
}

/// Sum of every entry of the integration matrix.
pub open spec fn matrix_sum(m: Seq<Vec<i64>>) -> int
    decreases m.len(),
{
    if m.len() == 0 {
        0
    } else {
        matrix_sum(m.drop_last()) + sum_seq(m.last()@)
    }
}

proof fn lemma_matrix_sum_take_step(m: Seq<Vec<i64>>, i: int)
    requires
        0 <= i < m.len(),
    ensures
        matrix_sum(m.take(i + 1)) == matrix_sum(m.take(i)) + sum_seq(m[i]@),
{
    assert(m.take(i + 1).drop_last() =~= m.take(i));
    assert(m.take(i + 1).last() == m[i]);
}

impl Default for CriticalPhi {
    /// The documented initial state: phi at 0.5 drifting toward 0.7,
    /// avalanche threshold 0.85, and random off-diagonal connections drawn
    /// from `[0, 0.5)`.
    fn default() -> (r: Self)
        ensures
            r.wf(),
            r.phi_value == 500_000,
            !r.avalanche_active,
            r.avalanche_duration == 0,
            forall|i: int, j: int|
                0 <= i < MATRIX_SIZE && 0 <= j < MATRIX_SIZE && i != j ==> 0
                    <= #[trigger] r.integration_matrix@[i]@[j] < 500_000,
    {
        let mut matrix: Vec<Vec<i64>> = Vec::new();
        let mut i: usize = 0;
        while i < MATRIX_SIZE
            invariant
                0 <= i <= MATRIX_SIZE,
                matrix@.len() == i,
                forall|a: int| 0 <= a < i ==> (#[trigger] matrix@[a])@.len() == MATRIX_SIZE,
                forall|a: int, b: int|
                    0 <= a < i && 0 <= b < MATRIX_SIZE && a != b ==> 0
                        <= #[trigger] matrix@[a]@[b] < 500_000,
                forall|a: int| 0 <= a < i ==> #[trigger] matrix@[a]@[a as int] == 0,
            decreases MATRIX_SIZE - i,
        {
            let mut row: Vec<i64> = Vec::new();
            let mut j: usize = 0;
            while j < MATRIX_SIZE
                invariant
                    0 <= i < MATRIX_SIZE,
                    0 <= j <= MATRIX_SIZE,
                    row@.len() == j,
                    forall|b: int| 0 <= b < j ==> 0 <= #[trigger] row@[b] < 500_000,
                    j > i ==> row@[i as int] == 0,
                decreases MATRIX_SIZE - j,
            {
                if i == j {
                    row.push(0);
                } else {
                    let samples = draw_samples(1);
                    let v = span(samples[0], 0, 500_000);
                    row.push(v);
                }
                j = j + 1;
            }
            matrix.push(row);
            i = i + 1;
        }
        Self {
            phi_value: 500_000,
            phi_target: 700_000,
            fluctuation: 100_000,
            avalanche_threshold: 850_000,
            avalanche_active: false,
            avalanche_duration: 0,
            integration_matrix: matrix,
        }
    }
}

} // verus!
