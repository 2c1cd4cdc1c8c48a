//! Attention model: a point on a bounded plane that alternates between
//! random-walk wandering and spring-like approach to a focused target, with
//! boredom-driven disengagement and a bounded, slowly changing target set.
//!
//! When appending a fresh target evicts the oldest one, the focus index is
//! shifted down to keep pointing at the same target, and cleared when the
//! evicted target was the focused one itself.

use vstd::prelude::*;
use crate::fixed::{
    SCALE, DT_MAX, clamp_spec, fp_mul_spec, span_spec, clamp_i64, fp_mul, span, isqrt,
    lemma_tdiv_range,
};
use crate::noise::draw_samples;
use crate::{Point2, RhythmData, RhythmMetadata};

verus! {

broadcast use vstd::string::group_string_axioms;

/// Position components are clamped into `[-POS_LIM, POS_LIM]`.
pub const POS_LIM: i64 = 2_000_000;

/// The target list never exceeds this many entries.
pub const MAX_TARGETS: usize = 8;

/// Saturation cap of the boredom accumulator.
pub const BOREDOM_CAP: i64 = 4_000_000_000_000_000;

/// Unit samples one update consumes: two for the wander force, one focus
/// check per possible target, one for the new-target draw and two for its
/// coordinates.
pub const NOISE_LEN: usize = 13;

pub struct AttentionWandering {
    pub attention_position: Point2,
    pub attention_targets: Vec<Point2>,
    pub boredom_level: i64,
    pub curiosity_map: Vec<(String, i64)>,
    pub current_focus: Option<usize>,
    pub focus_duration: i64,
}

/// Boredom grows by a tenth of the time step, saturating at the cap.
pub open spec fn boredom_next(b: int, dt: int) -> int {
    if b + fp_mul_spec(dt, 100_000) <= BOREDOM_CAP {
        b + fp_mul_spec(dt, 100_000)
    } else {
        BOREDOM_CAP as int
    }
}

/// Whether wandering attention at `(px, py)` locks onto target `k`: the
/// target must lie within 0.3 of the position and the per-step probability
/// check `s[2 + k] < 0.5 * dt` must pass.
pub open spec fn locks_onto(
    targets: Seq<Point2>,
    px: int,
    py: int,
    s: Seq<i64>,
    dt: int,
    k: int,
) -> bool {
    let dx = targets[k].x - px;
    let dy = targets[k].y - py;
    &&& dx * dx + dy * dy < 90_000_000_000
    &&& (s[2 + k] as int) < fp_mul_spec(500_000, dt)
}

/// The first target from index `k` on that the wandering scan locks onto.
pub open spec fn first_lock(
    targets: Seq<Point2>,
    px: int,
    py: int,
    s: Seq<i64>,
    dt: int,
    k: int,
) -> Option<usize>
    decreases targets.len() - k,
{
    if k < 0 || k >= targets.len() {
        None
    } else if locks_onto(targets, px, py, s, dt, k) {
        Some(k as usize)
    } else {
        first_lock(targets, px, py, s, dt, k + 1)
    }
}

impl AttentionWandering {
    /// Structural invariant: position clamped, at most `MAX_TARGETS` targets
    /// with coordinates inside one unit, nonnegative saturating boredom, and
    /// a focus duration that is zero while wandering and within the
    /// disengagement limit while focused.
    pub open spec fn wf(self) -> bool {
        &&& -POS_LIM <= self.attention_position.x <= POS_LIM
        &&& -POS_LIM <= self.attention_position.y <= POS_LIM
        &&& self.attention_targets@.len() <= MAX_TARGETS
        &&& (forall|i: int|
            0 <= i < self.attention_targets@.len() ==> -SCALE
                <= (#[trigger] self.attention_targets@[i]).x <= SCALE
                && -SCALE <= self.attention_targets@[i].y <= SCALE)
        &&& 0 <= self.boredom_level <= BOREDOM_CAP
        &&& (self.current_focus matches Some(_) ==> 0 <= self.focus_duration <= 5_000_000)
        &&& (self.current_focus is None ==> self.focus_duration == 0)
    }

    /// Exactly how one update with time step `dt` and unit samples `s`
    /// takes `pre` to `post`.
    pub open spec fn steps_to(pre: Self, post: Self, dt: int, s: Seq<i64>) -> bool {
        let b1 = boredom_next(pre.boredom_level as int, dt);
        // Movement and focus resolution before the position clamp.
        let moved = match pre.current_focus {
            Some(idx) => {
            let d1 = pre.focus_duration + dt;
            let px1 = if idx < pre.attention_targets@.len() {
                pre.attention_position.x + fp_mul_spec(
                    fp_mul_spec(
                        pre.attention_targets@[idx as int].x - pre.attention_position.x,
                        100_000,
                    ),
                    dt,
                )
            } else {
                pre.attention_position.x as int
            };
            let py1 = if idx < pre.attention_targets@.len() {
                pre.attention_position.y + fp_mul_spec(
                    fp_mul_spec(
                        pre.attention_targets@[idx as int].y - pre.attention_position.y,
                        100_000,
                    ),
                    dt,
                )
            } else {
                pre.attention_position.y as int
            };
            if b1 > 1_000_000 || d1 > 5_000_000 {
                (px1, py1, Option::<usize>::None, 0int, 0int)
            } else {
                (px1, py1, Some(idx), b1, d1)
            }
            },
            None => {
            let px1 = pre.attention_position.x + fp_mul_spec(
                fp_mul_spec(span_spec(s[0] as int, -(SCALE as int), SCALE as int), 500_000),
                dt,
            );
            let py1 = pre.attention_position.y + fp_mul_spec(
                fp_mul_spec(span_spec(s[1] as int, -(SCALE as int), SCALE as int), 500_000),
                dt,
            );
            let f1 = first_lock(pre.attention_targets@, px1, py1, s, dt, 0);
            (px1, py1, f1, b1, pre.focus_duration as int)
            },
        };
        let px2 = clamp_spec(moved.0, -POS_LIM as int, POS_LIM as int);
        let py2 = clamp_spec(moved.1, -POS_LIM as int, POS_LIM as int);
        // Occasional fresh target, evicting the oldest past the cap.
        let append = (s[10] as int) < fp_mul_spec(10_000, dt);
        let fresh = (Point2 {
            x: span_spec(s[11] as int, -(SCALE as int), SCALE as int) as i64,
            y: span_spec(s[12] as int, -(SCALE as int), SCALE as int) as i64,
        });
        let grown = pre.attention_targets@.push(fresh);
        &&& post.attention_position.x == px2
        &&& post.attention_position.y == py2
        &&& post.curiosity_map == pre.curiosity_map
        &&& if append {
            if grown.len() > MAX_TARGETS {
                &&& post.attention_targets@ == grown.subrange(1, grown.len() as int)
                &&& post.current_focus == (match moved.2 {
                    Some(k) => if k == 0 {
                        Option::<usize>::None
                    } else {
                        Some((k - 1) as usize)
                    },
                    None => Option::<usize>::None,
                })
                &&& post.focus_duration == (if moved.2 matches Some(k) && k == 0 {
                    0int
                } else {
                    moved.4
                })
            } else {
                &&& post.attention_targets@ == grown
                &&& post.current_focus == moved.2
                &&& post.focus_duration == moved.4
            }
        } else {
            &&& post.attention_targets@ == pre.attention_targets@
            &&& post.current_focus == moved.2
            &&& post.focus_duration == moved.4
        }
        &&& post.boredom_level == moved.3
    }

    /// Advance the model by `delta_time` micro-seconds, consuming the given
    /// unit noise samples.
    pub fn update_with_noise(&mut self, delta_time: i64, samples: &Vec<i64>)
        requires
            old(self).wf(),
            0 <= delta_time <= DT_MAX,
            samples@.len() >= NOISE_LEN,
            forall|i: int| 0 <= i < samples@.len() ==> 0 <= #[trigger] samples@[i] < SCALE,
        ensures
            final(self).wf(),
            Self::steps_to(*old(self), *final(self), delta_time as int, samples@),
    {
        proof {
            lemma_tdiv_range((delta_time as int) * 100_000, SCALE as int, 100_000_000_000int);
        }
        let binc = fp_mul(delta_time, 100_000);
        let b1 = if self.boredom_level <= BOREDOM_CAP - binc {
            self.boredom_level + binc
        } else {
            BOREDOM_CAP
        };
        self.boredom_level = b1;
        let focus_before = self.current_focus;
        match focus_before {
            Some(idx) => {
                self.focus_duration = self.focus_duration + delta_time;
                if idx < self.attention_targets.len() {
                    let t = self.attention_targets[idx];
                    proof {
                        lemma_tdiv_range(
                            (t.x - self.attention_position.x) as int * 100_000,
                            SCALE as int,
                            300_000int,
                        );
                        lemma_tdiv_range(
                            (t.y - self.attention_position.y) as int * 100_000,
                            SCALE as int,
                            300_000int,
                        );
                    }
                    let mx = fp_mul(t.x - self.attention_position.x, 100_000);
                    let my = fp_mul(t.y - self.attention_position.y, 100_000);
                    proof {
                        assert(-300_000 * DT_MAX <= (mx as int) * delta_time <= 300_000 * DT_MAX
                            && -300_000 * DT_MAX <= (my as int) * delta_time <= 300_000
                            * DT_MAX) by (nonlinear_arith)
                            requires
                                -300_000 <= mx <= 300_000,
                                -300_000 <= my <= 300_000,
                                0 <= delta_time <= DT_MAX,
                                DT_MAX == 1_000_000_000_000,
                        ;
                        lemma_tdiv_range(
                            (mx as int) * delta_time,
                            SCALE as int,
                            300_000_000_000int,
                        );
                        lemma_tdiv_range(
                            (my as int) * delta_time,
                            SCALE as int,
                            300_000_000_000int,
                        );
                    }
                    self.attention_position.x = self.attention_position.x + fp_mul(
                        mx,
                        delta_time,
                    );
                    self.attention_position.y = self.attention_position.y + fp_mul(
                        my,
                        delta_time,
                    );
                }
                if b1 > 1_000_000 || self.focus_duration > 5_000_000 {
                    self.current_focus = None;
                    self.boredom_level = 0;
                    self.focus_duration = 0;
                }
            },
            None => {
                let sx = span(samples[0], -SCALE, SCALE);
                let sy = span(samples[1], -SCALE, SCALE);
                proof {
                    lemma_tdiv_range((sx as int) * 500_000, SCALE as int, 500_000int);
                    lemma_tdiv_range((sy as int) * 500_000, SCALE as int, 500_000int);
                }
                let wx = fp_mul(sx, 500_000);
                let wy = fp_mul(sy, 500_000);
                proof {
                    assert(-500_000 * DT_MAX <= (wx as int) * delta_time <= 500_000 * DT_MAX
                        && -500_000 * DT_MAX <= (wy as int) * delta_time <= 500_000 * DT_MAX)
                        by (nonlinear_arith)
                        requires
                            -500_000 <= wx <= 500_000,
                            -500_000 <= wy <= 500_000,
                            0 <= delta_time <= DT_MAX,
                            DT_MAX == 1_000_000_000_000,
                    ;
                    lemma_tdiv_range((wx as int) * delta_time, SCALE as int, 500_000_000_000int);
                    lemma_tdiv_range((wy as int) * delta_time, SCALE as int, 500_000_000_000int);
                }
                self.attention_position.x = self.attention_position.x + fp_mul(wx, delta_time);
                self.attention_position.y = self.attention_position.y + fp_mul(wy, delta_time);
                proof {
                    lemma_tdiv_range(500_000 * (delta_time as int), SCALE as int, 500_000_000_000int);
                }
                let lock_bar = fp_mul(500_000, delta_time);
                let ghost px1 = self.attention_position.x as int;
                let ghost py1 = self.attention_position.y as int;
                let mut j: usize = 0;
                let mut locked = false;
                while j < self.attention_targets.len() && !locked
                    invariant
                        0 <= j <= self.attention_targets@.len(),
                        self.attention_targets@.len() <= MAX_TARGETS,
                        samples@.len() >= NOISE_LEN,
                        0 <= delta_time <= DT_MAX,
                        lock_bar == fp_mul_spec(500_000, delta_time as int),
                        px1 == self.attention_position.x as int,
                        py1 == self.attention_position.y as int,
                        -2_000_000_000_000 <= self.attention_position.x <= 2_000_000_000_000,
                        -2_000_000_000_000 <= self.attention_position.y <= 2_000_000_000_000,
                        forall|t: int|
                            0 <= t < self.attention_targets@.len() ==> -SCALE
                                <= (#[trigger] self.attention_targets@[t]).x <= SCALE && -SCALE
                                <= self.attention_targets@[t].y <= SCALE,
                        !locked ==> first_lock(
                            self.attention_targets@,
                            px1,
                            py1,
                            samples@,
                            delta_time as int,
                            0,
                        ) == first_lock(
                            self.attention_targets@,
                            px1,
                            py1,
                            samples@,
                            delta_time as int,
                            j as int,
                        ),
                        !locked ==> self.current_focus is None,
                        self.attention_targets@ == old(self).attention_targets@,
                        self.boredom_level == b1,
                        self.curiosity_map == old(self).curiosity_map,
                        locked ==> self.current_focus == first_lock(
                            self.attention_targets@,
                            px1,
                            py1,
                            samples@,
                            delta_time as int,
                            0,
                        ),
                        self.focus_duration == old(self).focus_duration,
                    decreases self.attention_targets@.len() - j,
                {
                    let t = self.attention_targets[j];
                    let dx = t.x - self.attention_position.x;
                    let dy = t.y - self.attention_position.y;
                    proof {
                        assert(0 <= (dx as int) * (dx as int)
                            <= 9_000_000_000_000_000_000_000_000int && 0 <= (dy as int) * (
                        dy as int) <= 9_000_000_000_000_000_000_000_000int) by (nonlinear_arith)
                            requires
                                -3_000_000_000_000 <= dx <= 3_000_000_000_000,
                                -3_000_000_000_000 <= dy <= 3_000_000_000_000,
                        ;
                    }
                    let n: u128 = ((dx as i128) * (dx as i128) + (dy as i128) * (dy as i128))
                        as u128;
                    let dist = isqrt(n);
                    proof {
                        if dist < 300_000 {
                            assert((dist as int + 1) * (dist as int + 1) <= 300_000int
                                * 300_000int) by (nonlinear_arith)
                                requires
                                    0 <= dist < 300_000,
                            ;
                        } else {
                            assert((dist as int) * (dist as int) >= 300_000int * 300_000int)
                                by (nonlinear_arith)
                                requires
                                    dist >= 300_000,
                            ;
                        }
                    }
                    if dist < 300_000 && samples[2 + j] < lock_bar {
                        self.current_focus = Some(j);
                        locked = true;
                    }
                    j = j + 1;
                }
            },
        }
        self.attention_position.x = clamp_i64(self.attention_position.x, -POS_LIM, POS_LIM);
        self.attention_position.y = clamp_i64(self.attention_position.y, -POS_LIM, POS_LIM);
        proof {
            lemma_tdiv_range(10_000 * (delta_time as int), SCALE as int, 10_000_000_000int);
        }
        if samples[10] < fp_mul(10_000, delta_time) {
            let fx = span(samples[11], -SCALE, SCALE);
            let fy = span(samples[12], -SCALE, SCALE);
            self.attention_targets.push(Point2 { x: fx, y: fy });
            if self.attention_targets.len() > MAX_TARGETS {
                self.attention_targets.remove(0);
                proof {
                    let grown = old(self).attention_targets@.push(Point2 { x: fx, y: fy });
                    assert(self.attention_targets@ =~= grown.subrange(1, grown.len() as int));
                }
                match self.current_focus {
                    Some(k) => {
                        if k == 0 {
                            self.current_focus = None;
                            self.focus_duration = 0;
                        } else {
                            self.current_focus = Some(k - 1);
                        }
                    },
                    None => {},
                }
            }
        }
    }

    /// Advance the model by `delta_time` micro-seconds with fresh uniform
    /// draws.
    pub fn update(&mut self, delta_time: i64)
        requires
            old(self).wf(),
            0 <= delta_time <= DT_MAX,
        ensures
            final(self).wf(),
            exists|s: Seq<i64>|
                s.len() == NOISE_LEN && (forall|i: int|
                    0 <= i < s.len() ==> 0 <= #[trigger] s[i] < SCALE)
                    && #[trigger] Self::steps_to(*old(self), *final(self), delta_time as int, s),
    {
        let samples = draw_samples(NOISE_LEN);
        self.update_with_noise(delta_time, &samples);
        proof {
            assert(samples@.len() == NOISE_LEN && (forall|i: int|
                0 <= i < samples@.len() ==> 0 <= #[trigger] samples@[i] < SCALE)
                && Self::steps_to(*old(self), *self, delta_time as int, samples@));
        }
    }

    /// Project the current state into an immutable snapshot: position,
    /// boredom and focus strength as values, with the focus flag, target
    /// count, focus duration and the raw target list as diagnostics.
    pub fn get_current_state(&self, timestamp: i64) -> (r: RhythmData)
        requires
            self.wf(),
        ensures
            r.rhythm_type@ == "attention_wandering"@,
            r.timestamp == timestamp,
            r.values@ =~= seq![
                self.attention_position.x,
                self.attention_position.y,
                self.boredom_level,
                focus_strength_of(self.current_focus, self.boredom_level as int) as i64,
            ],
            r.metadata matches RhythmMetadata::AttentionWandering {
                focused,
                num_targets,
                focus_duration,
                targets,
            } && focused == (self.current_focus matches Some(_)) && num_targets
                == self.attention_targets@.len() && focus_duration == self.focus_duration
                && targets@ == self.attention_targets@,
    {
        let focused = match self.current_focus {
            Some(_) => true,
            None => false,
        };
        let focus_strength = if focused {
            1_000_000 - self.boredom_level
        } else {
            0
        };
        let mut targets: Vec<Point2> = Vec::new();
        let mut i: usize = 0;
        while i < self.attention_targets.len()
            invariant
                0 <= i <= self.attention_targets@.len(),
                targets@.len() == i,
                forall|k: int| 0 <= k < i ==> #[trigger] targets@[k] == self.attention_targets@[k],
            decreases self.attention_targets@.len() - i,
        {
            targets.push(self.attention_targets[i]);
            i = i + 1;
        }
        proof {
            assert(targets@ =~= self.attention_targets@);
        }
        RhythmData {
            rhythm_type: "attention_wandering".to_string(),
            timestamp,
            values: vec![
                self.attention_position.x,
                self.attention_position.y,
                self.boredom_level,
                focus_strength,
            ],
            metadata: RhythmMetadata::AttentionWandering {
                focused,
                num_targets: self.attention_targets.len(),
                focus_duration: self.focus_duration,
                targets,
            },
        }
    }
}

/// Clamp law: a well-formed model keeps both position coordinates within
/// `[-2, 2]` and never holds more than the target cap.
pub proof fn lemma_attention_bounds(a: AttentionWandering)
    requires
        a.wf(),
    ensures
        -POS_LIM <= a.attention_position.x <= POS_LIM,
        -POS_LIM <= a.attention_position.y <= POS_LIM,
        a.attention_targets@.len() <= MAX_TARGETS,
{
}

/// Focus strength reported by a snapshot: `1 - boredom` while focused,
/// zero while wandering.
pub open spec fn focus_strength_of(focus: Option<usize>, boredom: int) -> int {
    if focus matches Some(_) {
        1_000_000 - boredom
    } else {
        0
    }
}

impl Default for AttentionWandering {
    /// The documented initial state: centered position, five random targets
    /// inside one unit, no boredom, no focus, and the static curiosity
    /// reference weights.
    fn default() -> (r: Self)
        ensures
            r.wf(),
            r.attention_position.x == 0 && r.attention_position.y == 0,
            r.attention_targets@.len() == 5,
            forall|i: int|
                0 <= i < r.attention_targets@.len() ==> -SCALE
                    <= (#[trigger] r.attention_targets@[i]).x < SCALE && -SCALE
                    <= r.attention_targets@[i].y < SCALE,
            r.boredom_level == 0,
            r.current_focus is None,
            r.focus_duration == 0,
            r.curiosity_map@.len() == 3,
            r.curiosity_map@[0].0@ == "novel"@ && r.curiosity_map@[0].1 == 800_000,
            r.curiosity_map@[1].0@ == "familiar"@ && r.curiosity_map@[1].1 == 200_000,
            r.curiosity_map@[2].0@ == "complex"@ && r.curiosity_map@[2].1 == 600_000,
    {
        let mut targets: Vec<Point2> = Vec::new();
        let mut i: usize = 0;
        while i < 5
            invariant
                0 <= i <= 5,
                targets@.len() == i,
                forall|k: int|
                    0 <= k < i ==> -SCALE <= (#[trigger] targets@[k]).x < SCALE && -SCALE
                        <= targets@[k].y < SCALE,
            decreases 5 - i,
        {
            let samples = draw_samples(2);
            let x = span(samples[0], -SCALE, SCALE);
            let y = span(samples[1], -SCALE, SCALE);
            targets.push(Point2 { x, y });
            i = i + 1;
        }
        let mut curiosity_map: Vec<(String, i64)> = Vec::new();
        curiosity_map.push(("novel".to_string(), 800_000));
        curiosity_map.push(("familiar".to_string(), 200_000));
        curiosity_map.push(("complex".to_string(), 600_000));
        Self {
            attention_position: Point2 { x: 0, y: 0 },
            attention_targets: targets,
            boredom_level: 0,
            curiosity_map,
            current_focus: None,
            focus_duration: 0,
        }
    }
}

} // verus!
