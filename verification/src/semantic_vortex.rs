//! Vortex field model: a point mass in three dimensions under superposed
//! attractor and repeller potentials, a rotational vortex term and velocity
//! damping. Position and velocity components saturate at a wide
//! representation limit instead of growing without bound.

use vstd::prelude::*;
use crate::fixed::{
    SCALE, DT_MAX, tdiv, clamp_spec, fp_mul_spec, span_spec, clamp_i64, fp_mul, span, isqrt,
    lemma_tdiv_range,
};
use vstd::arithmetic::div_mod::{lemma_div_pos_is_pos, lemma_multiply_divide_le,
    lemma_multiply_divide_lt};
use crate::noise::draw_samples;
use crate::{RhythmData, RhythmMetadata, Vec3};

verus! {

broadcast use vstd::string::group_string_axioms;

/// Representation limit of position, velocity and field-point components.
pub const FIELD_LIM: i64 = 1_000_000_000_000;

/// Largest number of attractors or repellers.
pub const MAX_POINTS: usize = 8;

/// Unit samples one update consumes: one for the vortex z-noise, one for
/// the perturbation draw, one for the attractor choice and three for the
/// perturbation offset.
pub const NOISE_LEN: usize = 6;

pub struct SemanticVortex {
    pub attractors: Vec<Vec3>,
    pub repellers: Vec<Vec3>,
    pub current_position: Vec3,
    pub velocity: Vec3,
    pub vortex_strength: i64,
}

/// `r` is the floor of the square root of `n`.
pub open spec fn is_sqrt_floor(n: int, r: int) -> bool {
    &&& 0 <= r
    &&& r * r <= n
    &&& n < (r + 1) * (r + 1)
}

/// The floor square root of a nonnegative integer.
pub open spec fn sqrt_floor(n: int) -> int {
    choose|r: int| is_sqrt_floor(n, r)
}

/// Pin the chosen root down from a witness.
pub proof fn lemma_sqrt_floor_is(n: int, r: int)
    requires
        is_sqrt_floor(n, r),
    ensures
        sqrt_floor(n) == r,
{
    assert(is_sqrt_floor(n, sqrt_floor(n)));
    let rr = sqrt_floor(n);
    assert(rr == r) by (nonlinear_arith)
        requires
            0 <= r,
            r * r <= n,
            n < (r + 1) * (r + 1),
            0 <= rr,
            rr * rr <= n,
            n < (rr + 1) * (rr + 1),
    ;
}

/// Squared distance between two field points.
pub open spec fn dist2(p: Vec3, q: Vec3) -> int {
    (q.x - p.x) * (q.x - p.x) + (q.y - p.y) * (q.y - p.y) + (q.z - p.z) * (q.z - p.z)
}

/// Inverse-distance force magnitude: `strength / (dist + 0.1)`.
pub open spec fn falloff(strength: int, dist: int) -> int {
    strength * (SCALE as int) / (dist + 100_000)
}

/// Force a single attractor exerts on the point at `p`: unit vector toward
/// the attractor times the falloff magnitude, zero inside the guard radius.
pub open spec fn attract_accel(p: Vec3, a: Vec3, strength: int) -> (int, int, int) {
    let dist = sqrt_floor(dist2(p, a));
    if dist > 10_000 {
        let mag = falloff(strength, dist);
        (
            fp_mul_spec(tdiv((a.x - p.x) * (SCALE as int), dist), mag),
            fp_mul_spec(tdiv((a.y - p.y) * (SCALE as int), dist), mag),
            fp_mul_spec(tdiv((a.z - p.z) * (SCALE as int), dist), mag),
        )
    } else {
        (0int, 0int, 0int)
    }
}

/// Force a single repeller exerts: unit vector away from it, at half
/// strength.
pub open spec fn repel_accel(p: Vec3, r: Vec3, strength: int) -> (int, int, int) {
    let dist = sqrt_floor(dist2(p, r));
    if dist > 10_000 {
        let mag = falloff(fp_mul_spec(strength, 500_000), dist);
        (
            fp_mul_spec(tdiv((p.x - r.x) * (SCALE as int), dist), mag),
            fp_mul_spec(tdiv((p.y - r.y) * (SCALE as int), dist), mag),
            fp_mul_spec(tdiv((p.z - r.z) * (SCALE as int), dist), mag),
        )
    } else {
        (0int, 0int, 0int)
    }
}

/// Sum of the attractor forces from the first `k` attractors.
pub open spec fn attract_sum(p: Vec3, pts: Seq<Vec3>, strength: int, k: int) -> (int, int, int)
    decreases k,
{
    if k <= 0 {
        (0int, 0int, 0int)
    } else {
        let prev = attract_sum(p, pts, strength, k - 1);
        let a = attract_accel(p, pts[k - 1], strength);
        (prev.0 + a.0, prev.1 + a.1, prev.2 + a.2)
    }
}

/// Sum of the repeller forces from the first `k` repellers.
pub open spec fn repel_sum(p: Vec3, pts: Seq<Vec3>, strength: int, k: int) -> (int, int, int)
    decreases k,
{
    if k <= 0 {
        (0int, 0int, 0int)
    } else {
        let prev = repel_sum(p, pts, strength, k - 1);
        let a = repel_accel(p, pts[k - 1], strength);
        (prev.0 + a.0, prev.1 + a.1, prev.2 + a.2)
    }
}

/// The net force on the point: attraction, repulsion, and the rotational
/// vortex term whose z component is fresh uniform noise.
pub open spec fn net_force(
    p: Vec3,
    attractors: Seq<Vec3>,
    repellers: Seq<Vec3>,
    strength: int,
    u0: int,
) -> (int, int, int) {
    let at = attract_sum(p, attractors, strength, attractors.len() as int);
    let re = repel_sum(p, repellers, strength, repellers.len() as int);
    (
        at.0 + re.0 + fp_mul_spec(-(p.y as int), 500_000),
        at.1 + re.1 + fp_mul_spec(p.x as int, 500_000),
        at.2 + re.2 + span_spec(u0, -100_000, 100_000),
    )
}

/// One velocity component after force integration, damping and saturation.
pub open spec fn vel_next(v: int, f: int, dt: int) -> int {
    clamp_spec(
        fp_mul_spec(v + fp_mul_spec(f, dt), 980_000),
        -(FIELD_LIM as int),
        FIELD_LIM as int,
    )
}

/// One position component after velocity integration and saturation.
pub open spec fn pos_next(p: int, v: int, dt: int) -> int {
    clamp_spec(p + fp_mul_spec(v, dt), -(FIELD_LIM as int), FIELD_LIM as int)
}

/// A field-point component after the drift offset and saturation.
pub open spec fn drift_comp(c: int, u: int) -> int {
    clamp_spec(c + span_spec(u, -100_000, 100_000), -(FIELD_LIM as int), FIELD_LIM as int)
}

impl SemanticVortex {
    /// Structural invariant: every component saturated inside the
    /// representation limit, a nonempty bounded attractor set, and a bounded
    /// repeller set.
    pub open spec fn wf(self) -> bool {
        &&& -FIELD_LIM <= self.current_position.x <= FIELD_LIM
        &&& -FIELD_LIM <= self.current_position.y <= FIELD_LIM
        &&& -FIELD_LIM <= self.current_position.z <= FIELD_LIM
        &&& -FIELD_LIM <= self.velocity.x <= FIELD_LIM
        &&& -FIELD_LIM <= self.velocity.y <= FIELD_LIM
        &&& -FIELD_LIM <= self.velocity.z <= FIELD_LIM
        &&& 1 <= self.attractors@.len() <= MAX_POINTS
        &&& self.repellers@.len() <= MAX_POINTS
        &&& (forall|i: int|
            0 <= i < self.attractors@.len() ==> -FIELD_LIM <= (#[trigger] self.attractors@[i]).x
                <= FIELD_LIM && -FIELD_LIM <= self.attractors@[i].y <= FIELD_LIM && -FIELD_LIM
                <= self.attractors@[i].z <= FIELD_LIM)
        &&& (forall|i: int|
            0 <= i < self.repellers@.len() ==> -FIELD_LIM <= (#[trigger] self.repellers@[i]).x
                <= FIELD_LIM && -FIELD_LIM <= self.repellers@[i].y <= FIELD_LIM && -FIELD_LIM
                <= self.repellers@[i].z <= FIELD_LIM)
        &&& 0 <= self.vortex_strength <= SCALE
    }

    /// Exactly how one update with time step `dt` and unit samples `s`
    /// takes `pre` to `post`.
    pub open spec fn steps_to(pre: Self, post: Self, dt: int, s: Seq<i64>) -> bool {
        let p = pre.current_position;
        let f = net_force(p, pre.attractors@, pre.repellers@, pre.vortex_strength as int, s[0] as int);
        let vx = vel_next(pre.velocity.x as int, f.0, dt);
        let vy = vel_next(pre.velocity.y as int, f.1, dt);
        let vz = vel_next(pre.velocity.z as int, f.2, dt);
        let perturb = (s[1] as int) < fp_mul_spec(10_000, dt);
        let idx = (s[2] as int) * pre.attractors@.len() / (SCALE as int);
        &&& post.vortex_strength == pre.vortex_strength
        &&& post.velocity.x == vx
        &&& post.velocity.y == vy
        &&& post.velocity.z == vz
        &&& post.current_position.x == pos_next(p.x as int, vx, dt)
        &&& post.current_position.y == pos_next(p.y as int, vy, dt)
        &&& post.current_position.z == pos_next(p.z as int, vz, dt)
        &&& post.repellers@ == pre.repellers@
        &&& post.attractors@.len() == pre.attractors@.len()
        &&& (forall|k: int|
            0 <= k < pre.attractors@.len() && (!perturb || k != idx)
                ==> #[trigger] post.attractors@[k] == pre.attractors@[k])
        &&& (perturb ==> post.attractors@[idx] == (Vec3 {
            x: drift_comp(pre.attractors@[idx].x as int, s[3] as int) as i64,
            y: drift_comp(pre.attractors@[idx].y as int, s[4] as int) as i64,
            z: drift_comp(pre.attractors@[idx].z as int, s[5] as int) as i64,
        }))
    }

    /// Advance the model by `delta_time` micro-seconds, consuming the given
    /// unit noise samples.
    pub fn update_with_noise(&mut self, delta_time: i64, samples: &Vec<i64>)
        requires
            old(self).wf(),
            0 <= delta_time <= DT_MAX,
            samples@.len() >= NOISE_LEN,
            forall|i: int| 0 <= i < samples@.len() ==> 0 <= #[trigger] samples@[i] < SCALE,
        ensures
            final(self).wf(),
            Self::steps_to(*old(self), *final(self), delta_time as int, samples@),
    {
        let p = self.current_position;
        let strength = self.vortex_strength;
        let mut fx: i64 = 0;
        let mut fy: i64 = 0;
        let mut fz: i64 = 0;
        let mut k: usize = 0;
        while k < self.attractors.len()
            invariant
                *self == *old(self),
                old(self).wf(),
                p == self.current_position,
                strength == self.vortex_strength,
                0 <= k <= self.attractors@.len(),
                (fx as int, fy as int, fz as int) == attract_sum(
                    p,
                    self.attractors@,
                    strength as int,
                    k as int,
                ),
                -(k as int) * 10_000_000 <= fx <= (k as int) * 10_000_000,
                -(k as int) * 10_000_000 <= fy <= (k as int) * 10_000_000,
                -(k as int) * 10_000_000 <= fz <= (k as int) * 10_000_000,
            decreases self.attractors@.len() - k,
        {
            let a = self.attractors[k];
            let acc = point_accel(p, a, strength, true);
            fx = fx + acc.0;
            fy = fy + acc.1;
            fz = fz + acc.2;
            k = k + 1;
        }
        let mut k2: usize = 0;
        while k2 < self.repellers.len()
            invariant
                *self == *old(self),
                old(self).wf(),
                p == self.current_position,
                strength == self.vortex_strength,
                0 <= k2 <= self.repellers@.len(),
                (fx as int, fy as int, fz as int) == {
                    let at = attract_sum(
                        p,
                        self.attractors@,
                        strength as int,
                        self.attractors@.len() as int,
                    );
                    let re = repel_sum(p, self.repellers@, strength as int, k2 as int);
                    (at.0 + re.0, at.1 + re.1, at.2 + re.2)
                },
                -(80_000_000 + (k2 as int) * 10_000_000) <= fx <= 80_000_000 + (k2 as int)
                    * 10_000_000,
                -(80_000_000 + (k2 as int) * 10_000_000) <= fy <= 80_000_000 + (k2 as int)
                    * 10_000_000,
                -(80_000_000 + (k2 as int) * 10_000_000) <= fz <= 80_000_000 + (k2 as int)
                    * 10_000_000,
            decreases self.repellers@.len() - k2,
        {
            let r = self.repellers[k2];
            let acc = point_accel(p, r, strength, false);
            fx = fx + acc.0;
            fy = fy + acc.1;
            fz = fz + acc.2;
            k2 = k2 + 1;
        }
        proof {
            lemma_tdiv_range(-(p.y as int) * 500_000, SCALE as int, 500_000_000_000int);
            lemma_tdiv_range((p.x as int) * 500_000, SCALE as int, 500_000_000_000int);
        }
        let npy = -p.y;
        fx = fx + fp_mul(npy, 500_000);
        fy = fy + fp_mul(p.x, 500_000);
        fz = fz + span(samples[0], -100_000, 100_000);
        let vx = self.vel_comp(self.velocity.x, fx, delta_time);
        let vy = self.vel_comp(self.velocity.y, fy, delta_time);
        let vz = self.vel_comp(self.velocity.z, fz, delta_time);
        self.velocity = Vec3 { x: vx, y: vy, z: vz };
        let px = self.pos_comp(p.x, vx, delta_time);
        let py = self.pos_comp(p.y, vy, delta_time);
        let pz = self.pos_comp(p.z, vz, delta_time);
        self.current_position = Vec3 { x: px, y: py, z: pz };
        proof {
            lemma_tdiv_range(10_000 * (delta_time as int), SCALE as int, 10_000_000_000int);
        }
        if samples[1] < fp_mul(10_000, delta_time) {
            let len = self.attractors.len();
            proof {
                assert(0 <= (samples@[2] as int) * (len as int) && (samples@[2] as int) * (
                len as int) < (SCALE as int) * (len as int)) by (nonlinear_arith)
                    requires
                        0 <= samples@[2] < SCALE,
                        0 < len,
                ;
                lemma_div_pos_is_pos((samples@[2] as int) * (len as int), SCALE as int);
                lemma_multiply_divide_lt(
                    (samples@[2] as int) * (len as int),
                    SCALE as int,
                    len as int,
                );
            }
            let idx = (((samples[2] as i128) * (len as i128)) / (SCALE as i128)) as usize;
            let a = self.attractors[idx];
            let ox = span(samples[3], -100_000, 100_000);
            let oy = span(samples[4], -100_000, 100_000);
            let oz = span(samples[5], -100_000, 100_000);
            self.attractors[idx] = Vec3 {
                x: clamp_i64(a.x + ox, -FIELD_LIM, FIELD_LIM),
                y: clamp_i64(a.y + oy, -FIELD_LIM, FIELD_LIM),
                z: clamp_i64(a.z + oz, -FIELD_LIM, FIELD_LIM),
            };
        }
    }

    fn vel_comp(&self, v: i64, f: i64, dt: i64) -> (r: i64)
        requires
            -FIELD_LIM <= v <= FIELD_LIM,
            -600_000_000_000 <= f <= 600_000_000_000,
            0 <= dt <= DT_MAX,
        ensures
            r == vel_next(v as int, f as int, dt as int),
            -FIELD_LIM <= r <= FIELD_LIM,
    {
        proof {
            assert(-600_000_000_000int * DT_MAX <= (f as int) * dt <= 600_000_000_000int
                * DT_MAX) by (nonlinear_arith)
                requires
                    -600_000_000_000 <= f <= 600_000_000_000,
                    0 <= dt <= DT_MAX,
                    DT_MAX == 1_000_000_000_000,
            ;
            lemma_tdiv_range((f as int) * dt, SCALE as int, 600_000_000_000_000_000int);
        }
        let v1 = v + fp_mul(f, dt);
        proof {
            lemma_tdiv_range((v1 as int) * 980_000, SCALE as int, 601_000_000_000_000_000int);
        }
        let v2 = fp_mul(v1, 980_000);
        clamp_i64(v2, -FIELD_LIM, FIELD_LIM)
    }

    fn pos_comp(&self, p: i64, v: i64, dt: i64) -> (r: i64)
        requires
            -FIELD_LIM <= p <= FIELD_LIM,
            -FIELD_LIM <= v <= FIELD_LIM,
            0 <= dt <= DT_MAX,
        ensures
            r == pos_next(p as int, v as int, dt as int),
            -FIELD_LIM <= r <= FIELD_LIM,
    {
        proof {
            assert(-(FIELD_LIM as int) * DT_MAX <= (v as int) * dt <= (FIELD_LIM as int)
                * DT_MAX) by (nonlinear_arith)
                requires
                    -FIELD_LIM <= v <= FIELD_LIM,
                    0 <= dt <= DT_MAX,
                    DT_MAX == 1_000_000_000_000,
                    FIELD_LIM == 1_000_000_000_000,
            ;
            lemma_tdiv_range((v as int) * dt, SCALE as int, 1_000_000_000_000_000_000int);
        }
        let m = fp_mul(v, dt);
        clamp_i64(p + m, -FIELD_LIM, FIELD_LIM)
    }

    /// Advance the model by `delta_time` micro-seconds with fresh uniform
    /// draws.
    pub fn update(&mut self, delta_time: i64)
        requires
            old(self).wf(),
            0 <= delta_time <= DT_MAX,
        ensures
            final(self).wf(),
            exists|s: Seq<i64>|
                s.len() == NOISE_LEN && (forall|i: int|
                    0 <= i < s.len() ==> 0 <= #[trigger] s[i] < SCALE)
                    && #[trigger] Self::steps_to(*old(self), *final(self), delta_time as int, s),
    {
        let samples = draw_samples(NOISE_LEN);
        self.update_with_noise(delta_time, &samples);
        proof {
            assert(samples@.len() == NOISE_LEN && (forall|i: int|
                0 <= i < samples@.len() ==> 0 <= #[trigger] samples@[i] < SCALE)
                && Self::steps_to(*old(self), *self, delta_time as int, samples@));
        }
    }

    /// Project the current state into an immutable snapshot: the position and
    /// the flow magnitude as values, with the velocity vector, the field
    /// point counts and the distance from the origin as diagnostics.
    pub fn get_current_state(&self, timestamp: i64) -> (r: RhythmData)
        requires
            self.wf(),
        ensures
            r.rhythm_type@ == "semantic_vortex"@,
            r.timestamp == timestamp,
            r.values@ =~= seq![
                self.current_position.x,
                self.current_position.y,
                self.current_position.z,
                sqrt_floor(
                    (self.velocity.x as int) * (self.velocity.x as int) + (self.velocity.y as int)
                        * (self.velocity.y as int) + (self.velocity.z as int) * (
                    self.velocity.z as int),
                ) as i64,
            ],
            r.metadata == (RhythmMetadata::SemanticVortex {
                velocity: self.velocity,
                num_attractors: self.attractors@.len() as usize,
                num_repellers: self.repellers@.len() as usize,
                position_magnitude: sqrt_floor(
                    (self.current_position.x as int) * (self.current_position.x as int) + (
                    self.current_position.y as int) * (self.current_position.y as int) + (
                    self.current_position.z as int) * (self.current_position.z as int),
                ) as i64,
            }),
    {
        let flow = vec_norm(self.velocity);
        let pos_mag = vec_norm(self.current_position);
        RhythmData {
            rhythm_type: "semantic_vortex".to_string(),
            timestamp,
            values: vec![
                self.current_position.x,
                self.current_position.y,
                self.current_position.z,
                flow,
            ],
            metadata: RhythmMetadata::SemanticVortex {
                velocity: self.velocity,
                num_attractors: self.attractors.len(),
                num_repellers: self.repellers.len(),
                position_magnitude: pos_mag,
            },
        }
    }
}

/// Euclidean norm of a saturated vector, rounded down.
fn vec_norm(v: Vec3) -> (r: i64)
    requires
        -FIELD_LIM <= v.x <= FIELD_LIM,
        -FIELD_LIM <= v.y <= FIELD_LIM,
        -FIELD_LIM <= v.z <= FIELD_LIM,
    ensures
        r == sqrt_floor(
            (v.x as int) * (v.x as int) + (v.y as int) * (v.y as int) + (v.z as int) * (
            v.z as int),
        ),
        0 <= r,
{
    proof {
        assert(0 <= (v.x as int) * (v.x as int) <= 1_000_000_000_000_000_000_000_000int && 0
            <= (v.y as int) * (v.y as int) <= 1_000_000_000_000_000_000_000_000int && 0 <= (
        v.z as int) * (v.z as int) <= 1_000_000_000_000_000_000_000_000int)
            by (nonlinear_arith)
            requires
                -FIELD_LIM <= v.x <= FIELD_LIM,
                -FIELD_LIM <= v.y <= FIELD_LIM,
                -FIELD_LIM <= v.z <= FIELD_LIM,
                FIELD_LIM == 1_000_000_000_000,
        ;
    }
    let n: u128 = ((v.x as i128) * (v.x as i128) + (v.y as i128) * (v.y as i128) + (v.z as i128)
        * (v.z as i128)) as u128;
    let r = isqrt(n);
    proof {
        lemma_sqrt_floor_is(n as int, r as int);
        assert(r <= 4_000_000_000_000u64) by (nonlinear_arith)
            requires
                (r as int) * (r as int) <= 16_000_000_000_000_000_000_000_000int,
                0 <= r,
        ;
    }
    r as i64
}

/// Force one field point exerts on the point at `p`: toward it for an
/// attractor, away from it at half strength for a repeller.
fn point_accel(p: Vec3, q: Vec3, strength: i64, toward: bool) -> (r: (i64, i64, i64))
    requires
        -FIELD_LIM <= p.x <= FIELD_LIM,
        -FIELD_LIM <= p.y <= FIELD_LIM,
        -FIELD_LIM <= p.z <= FIELD_LIM,
        -FIELD_LIM <= q.x <= FIELD_LIM,
        -FIELD_LIM <= q.y <= FIELD_LIM,
        -FIELD_LIM <= q.z <= FIELD_LIM,
        0 <= strength <= SCALE,
    ensures
        toward ==> (r.0 as int, r.1 as int, r.2 as int) == attract_accel(p, q, strength as int),
        !toward ==> (r.0 as int, r.1 as int, r.2 as int) == repel_accel(p, q, strength as int),
        -10_000_000 <= r.0 <= 10_000_000,
        -10_000_000 <= r.1 <= 10_000_000,
        -10_000_000 <= r.2 <= 10_000_000,
{
    let dx = if toward {
        q.x - p.x
    } else {
        p.x - q.x
    };
    let dy = if toward {
        q.y - p.y
    } else {
        p.y - q.y
    };
    let dz = if toward {
        q.z - p.z
    } else {
        p.z - q.z
    };
    proof {
        assert(0 <= (dx as int) * (dx as int) <= 4_000_000_000_000_000_000_000_000int && 0 <= (
        dy as int) * (dy as int) <= 4_000_000_000_000_000_000_000_000int && 0 <= (dz as int) * (
        dz as int) <= 4_000_000_000_000_000_000_000_000int) by (nonlinear_arith)
            requires
                -2_000_000_000_000 <= dx <= 2_000_000_000_000,
                -2_000_000_000_000 <= dy <= 2_000_000_000_000,
                -2_000_000_000_000 <= dz <= 2_000_000_000_000,
        ;
        assert(dist2(p, q) == (dx as int) * (dx as int) + (dy as int) * (dy as int) + (
        dz as int) * (dz as int)) by (nonlinear_arith)
            requires
                toward ==> dx == q.x - p.x && dy == q.y - p.y && dz == q.z - p.z,
                !toward ==> dx == p.x - q.x && dy == p.y - q.y && dz == p.z - q.z,
                dist2(p, q) == (q.x - p.x) * (q.x - p.x) + (q.y - p.y) * (q.y - p.y) + (q.z
                    - p.z) * (q.z - p.z),
        ;
    }
    let n: u128 = ((dx as i128) * (dx as i128) + (dy as i128) * (dy as i128) + (dz as i128) * (
    dz as i128)) as u128;
    let dist_u = isqrt(n);
    proof {
        lemma_sqrt_floor_is(n as int, dist_u as int);
        assert((dist_u as int) * (dist_u as int) < 0x4000_0000_0000_0000_0000_0000int);
        assert(dist_u <= 4_000_000_000_000u64) by (nonlinear_arith)
            requires
                (dist_u as int) * (dist_u as int) <= 16_000_000_000_000_000_000_000_000int,
                0 <= dist_u,
        ;
    }
    let dist = dist_u as i64;
    proof {
        assert((dx as int) * (dx as int) <= (dist as int) * ((dist as int) + 2) && (dy as int)
            * (dy as int) <= (dist as int) * ((dist as int) + 2) && (dz as int) * (dz as int)
            <= (dist as int) * ((dist as int) + 2)) by (nonlinear_arith)
            requires
                0 <= (dx as int) * (dx as int),
                0 <= (dy as int) * (dy as int),
                0 <= (dz as int) * (dz as int),
                (dx as int) * (dx as int) + (dy as int) * (dy as int) + (dz as int) * (
                dz as int) == n as int,
                (n as int) < ((dist as int) + 1) * ((dist as int) + 1),
                0 <= dist,
        ;
    }
    if dist > 10_000 {
        let base = if toward {
            strength
        } else {
            fp_mul(strength, 500_000)
        };
        proof {
            lemma_div_pos_is_pos((base as int) * (SCALE as int), dist as int + 100_000);
            lemma_multiply_divide_le(
                (base as int) * (SCALE as int),
                dist as int + 100_000,
                10_000_000int,
            );
            assert((base as int) * (SCALE as int) <= (dist as int + 100_000) * 10_000_000int)
                by (nonlinear_arith)
                requires
                    0 <= base <= SCALE,
                    dist > 10_000,
                    SCALE == 1_000_000,
            ;
        }
        let mag = ((base as i128) * (SCALE as i128) / ((dist as i128) + 100_000)) as i64;
        let ux = unit_comp(dx, dist);
        let uy = unit_comp(dy, dist);
        let uz = unit_comp(dz, dist);
        proof {
            lemma_fp_unit_mag(ux as int, mag as int);
            lemma_fp_unit_mag(uy as int, mag as int);
            lemma_fp_unit_mag(uz as int, mag as int);
        }
        (fp_mul(ux, mag), fp_mul(uy, mag), fp_mul(uz, mag))
    } else {
        (0, 0, 0)
    }
}

/// One component of the unit vector `d / dist` in micro-units.
fn unit_comp(d: i64, dist: i64) -> (r: i64)
    requires
        dist > 0,
        (d as int) * (d as int) <= (dist as int) * ((dist as int) + 2),
        -4_000_000_000_000 <= d <= 4_000_000_000_000,
    ensures
        r == tdiv((d as int) * (SCALE as int), dist as int),
        -SCALE <= r <= SCALE,
{
    proof {
        assert(-(dist as int) <= d <= dist as int) by (nonlinear_arith)
            requires
                dist > 0,
                (d as int) * (d as int) <= (dist as int) * ((dist as int) + 2),
        ;
        assert(-(SCALE as int) * (dist as int) <= (d as int) * (SCALE as int) <= (
        SCALE as int) * (dist as int)) by (nonlinear_arith)
            requires
                -(dist as int) <= d <= dist as int,
                SCALE == 1_000_000,
        ;
        lemma_tdiv_range((d as int) * (SCALE as int), dist as int, SCALE as int);
    }
    (((d as i128) * (SCALE as i128)) / (dist as i128)) as i64
}

/// The product of a unit component and a falloff magnitude stays within the
/// magnitude itself.
proof fn lemma_fp_unit_mag(u: int, mag: int)
    requires
        -(SCALE as int) <= u <= SCALE as int,
        0 <= mag <= 10_000_000,
    ensures
        -10_000_000 <= fp_mul_spec(u, mag) <= 10_000_000,
{
    assert(-(10_000_000int * (SCALE as int)) <= u * mag <= 10_000_000int * (SCALE as int))
        by (nonlinear_arith)
        requires
            -(SCALE as int) <= u <= SCALE as int,
            0 <= mag <= 10_000_000,
            SCALE == 1_000_000,
    ;
    lemma_tdiv_range(u * mag, SCALE as int, 10_000_000int);
}

impl Default for SemanticVortex {
    /// The documented initial state: three random attractors and two random
    /// repellers inside one unit, the point at rest at the origin, vortex
    /// strength 0.5.
    fn default() -> (r: Self)
        ensures
            r.wf(),
            r.attractors@.len() == 3,
            r.repellers@.len() == 2,
            forall|i: int|
                0 <= i < r.attractors@.len() ==> -SCALE <= (#[trigger] r.attractors@[i]).x
                    < SCALE && -SCALE <= r.attractors@[i].y < SCALE && -SCALE
                    <= r.attractors@[i].z < SCALE,
            forall|i: int|
                0 <= i < r.repellers@.len() ==> -SCALE <= (#[trigger] r.repellers@[i]).x
                    < SCALE && -SCALE <= r.repellers@[i].y < SCALE && -SCALE
                    <= r.repellers@[i].z < SCALE,
            r.current_position == (Vec3 { x: 0i64, y: 0i64, z: 0i64 }),
            r.velocity == (Vec3 { x: 0i64, y: 0i64, z: 0i64 }),
            r.vortex_strength == 500_000,
    {
        let mut attractors: Vec<Vec3> = Vec::new();
        let mut i: usize = 0;
        while i < 3
            invariant
                0 <= i <= 3,
                attractors@.len() == i,
                forall|k: int|
                    0 <= k < i ==> -SCALE <= (#[trigger] attractors@[k]).x < SCALE && -SCALE
                        <= attractors@[k].y < SCALE && -SCALE <= attractors@[k].z < SCALE,
            decreases 3 - i,
        {
            let samples = draw_samples(3);
            attractors.push(Vec3 {
                x: span(samples[0], -SCALE, SCALE),
                y: span(samples[1], -SCALE, SCALE),
                z: span(samples[2], -SCALE, SCALE),
            });
            i = i + 1;
        }
        let mut repellers: Vec<Vec3> = Vec::new();
        let mut j: usize = 0;
        while j < 2
            invariant
                0 <= j <= 2,
                repellers@.len() == j,
                forall|k: int|
                    0 <= k < j ==> -SCALE <= (#[trigger] repellers@[k]).x < SCALE && -SCALE
                        <= repellers@[k].y < SCALE && -SCALE <= repellers@[k].z < SCALE,
            decreases 2 - j,
        {
            let samples = draw_samples(3);
            repellers.push(Vec3 {
                x: span(samples[0], -SCALE, SCALE),
                y: span(samples[1], -SCALE, SCALE),
                z: span(samples[2], -SCALE, SCALE),
            });
            j = j + 1;
        }
        Self {
            attractors,
            repellers,
            current_position: Vec3 { x: 0, y: 0, z: 0 },
            velocity: Vec3 { x: 0, y: 0, z: 0 },
            vortex_strength: 500_000,
        }
    }
}

} // verus!
