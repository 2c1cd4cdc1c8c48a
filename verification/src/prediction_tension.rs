//! Tension/release model: a bounded FIFO of recent prediction-error samples
//! feeds a normalized tension scalar; crossing the release threshold starts a
//! decaying release episode, and the buffer is cleared when the episode ends.

use vstd::prelude::*;
use crate::fixed::{
    SCALE, DT_MAX, tdiv, fp_mul_spec, span_spec, fp_mul, span, sum_seq, sum_vec,
    lemma_tdiv_range, lemma_span_range, lemma_sum_seq_bounds,
};
use vstd::arithmetic::div_mod::{lemma_div_pos_is_pos, lemma_multiply_divide_le};
use vstd::arithmetic::mul::lemma_mul_upper_bound;
use crate::noise::draw_samples;
use crate::{RhythmData, RhythmMetadata};

verus! {

broadcast use vstd::string::group_string_axioms;

/// Capacity of the error buffer; tension is normalized against it.
pub const CAPACITY: usize = 100;

/// Largest single error sample: `0.3 * DT_MAX` in micro-units.
pub const MAX_ERR: i64 = 300_000_000_000;

pub struct PredictionTension {
    pub error_buffer: Vec<i64>,
    pub buffer_capacity: usize,
    pub tension_level: i64,
    pub release_threshold: i64,
    pub release_active: bool,
    pub release_intensity: i64,
}

/// The fresh error sample one update appends: a uniform draw from
/// `[0, 0.3)` scaled by the time step.
pub open spec fn new_error_spec(u: int, dt: int) -> int {
    fp_mul_spec(span_spec(u, 0, 300_000), dt)
}

/// Append an error sample, evicting the oldest once the buffer would
/// exceed its capacity.
pub open spec fn bounded_push(buf: Seq<i64>, e: i64) -> Seq<i64> {
    let b = buf.push(e);
    if b.len() > CAPACITY {
        b.subrange(1, b.len() as int)
    } else {
        b
    }
}

/// Tension: accumulated error normalized against full capacity, so a
/// partially filled buffer reads lower than an equally dense full one.
pub open spec fn tension_of(buf: Seq<i64>) -> int {
    sum_seq(buf) / (CAPACITY as int)
}

/// Sum of the per-sample squared deviations from `mean`, each scaled back
/// to micro-units.
pub open spec fn sq_dev_sum(s: Seq<i64>, mean: int) -> int
    decreases s.len(),
{
    if s.len() == 0 {
        0
    } else {
        sq_dev_sum(s.drop_last(), mean) + tdiv(
            (s.last() - mean) * (s.last() - mean),
            SCALE as int,
        )
    }
}

/// Sample variance of the buffer contents, 0 when fewer than two samples.
pub open spec fn variance_of(s: Seq<i64>) -> int {
    if s.len() <= 1 {
        0
    } else {
        sq_dev_sum(s, sum_seq(s) / s.len() as int) / s.len() as int
    }
}

impl PredictionTension {
    /// Structural invariant: the buffer never exceeds its capacity and every
    /// derived scalar stays in its fixed-point range.
    pub open spec fn wf(self) -> bool {
        &&& self.buffer_capacity == CAPACITY
        &&& self.error_buffer@.len() <= CAPACITY
        &&& (forall|i: int|
            0 <= i < self.error_buffer@.len() ==> 0 <= #[trigger] self.error_buffer@[i]
                <= MAX_ERR)
        &&& 0 <= self.tension_level <= MAX_ERR
        &&& self.release_threshold == 800_000
        &&& 0 <= self.release_intensity <= 2 * MAX_ERR
    }

    /// Exactly how one update with time step `dt` and unit noise sample `u`
    /// takes `pre` to `post`.
    pub open spec fn steps_to(pre: Self, post: Self, dt: int, u: int) -> bool {
        let e = new_error_spec(u, dt) as i64;
        let nb = bounded_push(pre.error_buffer@, e);
        let t0 = tension_of(nb);
        &&& post.buffer_capacity == pre.buffer_capacity
        &&& post.release_threshold == pre.release_threshold
        &&& if pre.release_active {
            let ni = fp_mul_spec(pre.release_intensity as int, 950_000);
            &&& post.release_intensity == ni
            &&& post.tension_level == fp_mul_spec(t0, 900_000)
            &&& if ni < 10_000 {
                &&& !post.release_active
                &&& post.error_buffer@ == Seq::<i64>::empty()
            } else {
                &&& post.release_active
                &&& post.error_buffer@ == nb
            }
        } else {
            &&& post.error_buffer@ == nb
            &&& post.tension_level == t0
            &&& if t0 > pre.release_threshold {
                &&& post.release_active
                &&& post.release_intensity == 2 * t0
            } else {
                &&& !post.release_active
                &&& post.release_intensity == pre.release_intensity
            }
        }
    }

    /// Advance the model by `delta_time` micro-seconds, consuming the unit
    /// noise sample `u` as the fresh prediction error.
    pub fn update_with_noise(&mut self, delta_time: i64, u: i64)
        requires
            old(self).wf(),
            0 <= delta_time <= DT_MAX,
            0 <= u < SCALE,
        ensures
            final(self).wf(),
            Self::steps_to(*old(self), *final(self), delta_time as int, u as int),
    {
        let raw = span(u, 0, 300_000);
        proof {
            assert(raw * delta_time <= MAX_ERR * SCALE && 0 <= raw * delta_time)
                by (nonlinear_arith)
                requires
                    0 <= raw < 300_000,
                    0 <= delta_time <= 1_000_000_000_000,
                    MAX_ERR == 300_000_000_000,
                    SCALE == 1_000_000,
            ;
            lemma_tdiv_range(raw as int * delta_time as int, SCALE as int, MAX_ERR as int);
        }
        let new_error = fp_mul(raw, delta_time);
        self.error_buffer.push(new_error);
        if self.error_buffer.len() > self.buffer_capacity {
            self.error_buffer.remove(0);
            proof {
                assert(self.error_buffer@ =~= bounded_push(
                    old(self).error_buffer@,
                    new_error,
                ));
            }
        }
        proof {
            assert(self.error_buffer@ =~= bounded_push(old(self).error_buffer@, new_error));
            assert(self.error_buffer@.len() * MAX_ERR <= 100 * MAX_ERR);
        }
        let sum = sum_vec(&self.error_buffer, MAX_ERR);
        proof {
            lemma_div_pos_is_pos(sum as int, CAPACITY as int);
            lemma_multiply_divide_le(sum as int, CAPACITY as int, MAX_ERR as int);
        }
        self.tension_level = sum / (CAPACITY as i64);
        if self.release_active {
            proof {
                lemma_mul_upper_bound(
                    old(self).release_intensity as int,
                    2 * MAX_ERR,
                    950_000,
                    SCALE as int,
                );
                lemma_tdiv_range(
                    old(self).release_intensity as int * 950_000,
                    SCALE as int,
                    2 * MAX_ERR,
                );
                lemma_mul_upper_bound(self.tension_level as int, MAX_ERR as int, 900_000, SCALE as int);
                lemma_tdiv_range(self.tension_level as int * 900_000, SCALE as int, MAX_ERR as int);
            }
            self.release_intensity = fp_mul(self.release_intensity, 950_000);
            self.tension_level = fp_mul(self.tension_level, 900_000);
            if self.release_intensity < 10_000 {
                self.release_active = false;
                self.error_buffer.clear();
            }
        } else if self.tension_level > self.release_threshold {
            self.release_active = true;
            self.release_intensity = self.tension_level * 2;
        }
    }

    /// Advance the model by `delta_time` micro-seconds with a fresh uniform
    /// draw as the prediction error.
    pub fn update(&mut self, delta_time: i64)
        requires
            old(self).wf(),
            0 <= delta_time <= DT_MAX,
        ensures
            final(self).wf(),
            exists|u: int|
                0 <= u < SCALE && #[trigger] Self::steps_to(
                    *old(self),
                    *final(self),
                    delta_time as int,
                    u,
                ),
    {
        let samples = draw_samples(1);
        self.update_with_noise(delta_time, samples[0]);
        proof {
            let u = samples@[0] as int;
            assert(0 <= u < SCALE && Self::steps_to(*old(self), *self, delta_time as int, u));
        }
    }

    /// Project the current state into an immutable snapshot.
    pub fn get_current_state(&self, timestamp: i64) -> (r: RhythmData)
        requires
            self.wf(),
        ensures
            r.rhythm_type@ == "prediction_tension"@,
            r.timestamp == timestamp,
            r.values@ =~= seq![self.tension_level, self.release_intensity],
            r.metadata == (RhythmMetadata::PredictionTension {
                release_active: self.release_active,
                buffer_size: self.error_buffer@.len() as usize,
                variance: variance_of(self.error_buffer@) as i64,
            }),
    {
        let variance = self.buffer_variance();
        RhythmData {
            rhythm_type: "prediction_tension".to_string(),
            timestamp,
            values: vec![self.tension_level, self.release_intensity],
            metadata: RhythmMetadata::PredictionTension {
                release_active: self.release_active,
                buffer_size: self.error_buffer.len(),
                variance,
            },
        }
    }

    fn buffer_variance(&self) -> (r: i64)
        requires
            self.wf(),
        ensures
            r == variance_of(self.error_buffer@),
    {
        let n = self.error_buffer.len();
        if n <= 1 {
            return 0;
        }
        proof {
            assert(self.error_buffer@.len() * MAX_ERR <= 100 * MAX_ERR);
        }
        let sum = sum_vec(&self.error_buffer, MAX_ERR);
        proof {
            lemma_div_pos_is_pos(sum as int, n as int);
            lemma_multiply_divide_le(sum as int, n as int, MAX_ERR as int);
        }
        let mean = sum / (n as i64);
        let ghost s = self.error_buffer@;
        let ghost m = mean as int;
        let mut acc: i64 = 0;
        let mut i: usize = 0;
        proof {
            assert(s.take(0) =~= Seq::<i64>::empty());
        }
        while i < n
            invariant
                0 <= i <= n,
                n == s.len(),
                s == self.error_buffer@,
                self.wf(),
                mean == m,
                0 <= m <= MAX_ERR,
                n <= 100,
                acc == sq_dev_sum(s.take(i as int), m),
                0 <= acc <= i * 90_000_000_000_000_000,
            decreases n - i,
        {
            let x = self.error_buffer[i];
            proof {
                assert(0 <= s[i as int] <= MAX_ERR);
            }
            let d = x - mean;
            proof {
                assert(0 <= (d as int) * (d as int)
                    <= 90_000_000_000_000_000int * 1_000_000int) by (nonlinear_arith)
                    requires
                        -300_000_000_000 <= d <= 300_000_000_000,
                ;
                lemma_tdiv_range(
                    (d as int) * (d as int),
                    SCALE as int,
                    90_000_000_000_000_000int,
                );
                lemma_sq_dev_take_step(s, m, i as int);
            }
            let dd: i128 = (d as i128) * (d as i128);
            let q: i128 = dd / (SCALE as i128);
            acc = acc + (q as i64);
            i = i + 1;
        }
        proof {
            assert(s.take(n as int) =~= s);
            lemma_div_pos_is_pos(acc as int, n as int);
        }
        acc / (n as i64)
    }
}

/// Release law: in the accumulating regime release turns on exactly when the
/// fresh tension crosses the threshold; in the releasing regime, once the
/// decayed intensity falls below the floor, release turns off and the error
/// buffer is left empty. The buffer never exceeds its capacity.
pub proof fn lemma_release_cycle(pre: PredictionTension, post: PredictionTension, dt: int, u: int)
    requires
        pre.wf(),
        post.wf(),
        PredictionTension::steps_to(pre, post, dt, u),
    ensures
        !pre.release_active ==> (post.release_active <==> post.tension_level
            > pre.release_threshold),
        pre.release_active && fp_mul_spec(pre.release_intensity as int, 950_000) < 10_000
            ==> !post.release_active && post.error_buffer@.len() == 0,
        pre.release_active && fp_mul_spec(pre.release_intensity as int, 950_000) >= 10_000
            ==> post.release_active,
        post.error_buffer@.len() <= CAPACITY,
{
}

/// Sub-second-scenario law: with steps of at most one second, every drawable
/// error sample is at most 0.299999, so from any accumulating state whose
/// buffered errors respect that bound, one more update keeps release off and
/// tension at or below 0.299999 -- far below the 0.8 release threshold. The
/// default construction satisfies the bound with an empty buffer, so a chain
/// of such updates can never trigger a release, however long.
pub proof fn lemma_subsecond_updates_never_release(
    pre: PredictionTension,
    post: PredictionTension,
    dt: int,
    u: int,
)
    requires
        pre.wf(),
        PredictionTension::steps_to(pre, post, dt, u),
        0 <= dt <= 1_000_000,
        0 <= u < SCALE,
        !pre.release_active,
        forall|i: int|
            0 <= i < pre.error_buffer@.len() ==> 0 <= #[trigger] pre.error_buffer@[i]
                <= 299_999,
    ensures
        !post.release_active,
        0 <= post.tension_level <= 299_999,
        forall|i: int|
            0 <= i < post.error_buffer@.len() ==> 0 <= #[trigger] post.error_buffer@[i]
                <= 299_999,
{
    lemma_span_range(u, 0, 300_000);
    let a = span_spec(u, 0, 300_000);
    assert(0 <= a * dt <= 299_999 * 1_000_000) by (nonlinear_arith)
        requires
            0 <= a <= 299_999,
            0 <= dt <= 1_000_000,
    ;
    lemma_tdiv_range(a * dt, SCALE as int, 299_999);
    lemma_div_pos_is_pos(a * dt, SCALE as int);
    let e = new_error_spec(u, dt) as i64;
    let b = pre.error_buffer@.push(e);
    let nb = bounded_push(pre.error_buffer@, e);
    assert forall|i: int| 0 <= i < nb.len() implies 0 <= #[trigger] nb[i] <= 299_999 by {
        if b.len() > CAPACITY {
            assert(nb[i] == b[i + 1]);
        } else {
            assert(nb[i] == b[i]);
        }
    }
    lemma_sum_seq_bounds(nb, 0, 299_999);
    lemma_div_pos_is_pos(sum_seq(nb), CAPACITY as int);
    lemma_multiply_divide_le(sum_seq(nb), CAPACITY as int, 299_999);
}

proof fn lemma_sq_dev_take_step(s: Seq<i64>, mean: int, i: int)
    requires
        0 <= i < s.len(),
    ensures
        sq_dev_sum(s.take(i + 1), mean) == sq_dev_sum(s.take(i), mean) + tdiv(
            (s[i] - mean) * (s[i] - mean),
            SCALE as int,
        ),
{
    assert(s.take(i + 1).drop_last() =~= s.take(i));
    assert(s.take(i + 1).last() == s[i]);
}

impl Default for PredictionTension {
    /// The documented initial state: empty buffer, zero tension, release
    /// threshold 0.8, inactive release.
    fn default() -> (r: Self)
        ensures
            r.wf(),
            r.error_buffer@ == Seq::<i64>::empty(),
            r.tension_level == 0,
            r.release_threshold == 800_000,
            !r.release_active,
            r.release_intensity == 0,
    {
        Self {
            error_buffer: Vec::new(),
            buffer_capacity: CAPACITY,
            tension_level: 0,
            release_threshold: 800_000,
            release_active: false,
            release_intensity: 0,
        }
    }
}

} // verus!
