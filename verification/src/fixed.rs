//! Fixed-point arithmetic for the rhythm models.
//!
//! Every continuous quantity in the engine is held in micro-units: the value
//! `SCALE` stands for 1.0. All helpers here state their exact integer result,
//! so the model contracts built on them pin every state transition down.

use vstd::prelude::*;
use vstd::arithmetic::div_mod::{
    lemma_fundamental_div_mod, lemma_fundamental_div_mod_converse_mod, lemma_div_pos_is_pos,
    lemma_multiply_divide_le, lemma_multiply_divide_lt,
};
use vstd::arithmetic::mul::{
    lemma_mul_inequality, lemma_mul_strict_inequality, lemma_mul_is_distributive_add_other_way,
    lemma_mul_is_commutative,
};

verus! {

/// One fixed-point unit: the integer standing for 1.0.
pub const SCALE: i64 = 1_000_000;

/// Half turn in micro-radians.
pub const PI_FP: i64 = 3_141_593;

/// Full turn in micro-radians; oscillator phases live in `[0, TAU_FP)`.
pub const TAU_FP: i64 = 6_283_186;

/// Largest time step a single update accepts, in micro-seconds.
pub const DT_MAX: i64 = 1_000_000_000_000;

/// Truncating (round-toward-zero) quotient: the value Rust's `/` computes on
/// signed integers.
pub open spec fn tdiv(a: int, b: int) -> int {
    if a >= 0 {
        a / b
    } else {
        -((-a) / b)
    }
}

/// Clamp `v` into `[lo, hi]`.
pub open spec fn clamp_spec(v: int, lo: int, hi: int) -> int {
    if v < lo {
        lo
    } else if v > hi {
        hi
    } else {
        v
    }
}

pub fn clamp_i64(v: i64, lo: i64, hi: i64) -> (r: i64)
    requires
        lo <= hi,
    ensures
        r == clamp_spec(v as int, lo as int, hi as int),
{
    if v < lo {
        lo
    } else if v > hi {
        hi
    } else {
        v
    }
}

/// Fixed-point product: `a * b / SCALE`, truncated toward zero.
pub open spec fn fp_mul_spec(a: int, b: int) -> int {
    tdiv(a * b, SCALE as int)
}

/// A truncating quotient is bounded whenever the dividend is: if
/// `|p| <= m * d` then `|tdiv(p, d)| <= m`.
pub proof fn lemma_tdiv_range(p: int, d: int, m: int)
    requires
        d > 0,
        0 <= m,
        -(m * d) <= p <= m * d,
    ensures
        -m <= tdiv(p, d) <= m,
{
    if p >= 0 {
        lemma_mul_is_commutative(m, d);
        lemma_multiply_divide_le(p, d, m);
        lemma_div_pos_is_pos(p, d);
    } else {
        lemma_mul_is_commutative(m, d);
        lemma_multiply_divide_le(-p, d, m);
        lemma_div_pos_is_pos(-p, d);
    }
}

pub fn fp_mul(a: i64, b: i64) -> (r: i64)
    requires
        -0x7fff_ffff_ffff_ffff <= fp_mul_spec(a as int, b as int) <= 0x7fff_ffff_ffff_ffff,
    ensures
        r == fp_mul_spec(a as int, b as int),
{
    let p: i128 = (a as i128) * (b as i128);
    let q: i128 = p / (SCALE as i128);
    proof {
        assert(q == tdiv(a as int * b as int, SCALE as int));
    }
    q as i64
}

/// Affine map of a unit sample `u` in `[0, SCALE)` onto `[lo, hi)`:
/// the fixed-point reading of "a uniform draw in `[lo, hi)`".
pub open spec fn span_spec(u: int, lo: int, hi: int) -> int {
    lo + (hi - lo) * u / (SCALE as int)
}

/// The affine map keeps its range: a unit sample lands inside `[lo, hi)`.
pub proof fn lemma_span_range(u: int, lo: int, hi: int)
    requires
        0 <= u < SCALE,
        lo < hi,
    ensures
        lo <= span_spec(u, lo, hi) < hi,
{
    let wi = (hi - lo) * u;
    lemma_div_pos_is_pos(wi, SCALE as int);
    assert(wi < (hi - lo) * (SCALE as int)) by {
        lemma_mul_strict_inequality(u, SCALE as int, hi - lo);
        lemma_mul_is_commutative(hi - lo, u);
        lemma_mul_is_commutative(hi - lo, SCALE as int);
    }
    lemma_multiply_divide_lt(wi, SCALE as int, hi - lo);
}

pub fn span(u: i64, lo: i64, hi: i64) -> (r: i64)
    requires
        0 <= u < SCALE,
        -1_000_000_000_000 <= lo < hi <= 1_000_000_000_000,
    ensures
        r == span_spec(u as int, lo as int, hi as int),
        lo <= r < hi,
{
    proof {
        assert(0 <= (hi - lo) as int * (u as int) <= 2_000_000_000_000int * 1_000_000int)
            by (nonlinear_arith)
            requires
                0 < hi - lo <= 2_000_000_000_000,
                0 <= u < 1_000_000,
        ;
    }
    let w: i128 = ((hi - lo) as i128) * (u as i128);
    let d: i128 = w / (SCALE as i128);
    proof {
        let wi = (hi - lo) as int * (u as int);
        lemma_div_pos_is_pos(wi, SCALE as int);
        assert(wi < (hi - lo) as int * (SCALE as int)) by {
            lemma_mul_strict_inequality(u as int, SCALE as int, (hi - lo) as int);
            lemma_mul_is_commutative((hi - lo) as int, u as int);
            lemma_mul_is_commutative((hi - lo) as int, SCALE as int);
        }
        lemma_multiply_divide_lt(wi, SCALE as int, (hi - lo) as int);
    }
    lo + (d as i64)
}

/// Euclidean reduction of a phase increment into `[0, TAU_FP)`.
pub open spec fn wrap_spec(v: int) -> int {
    v % (TAU_FP as int)
}

pub fn wrap_tau(v: i128) -> (r: i64)
    requires
        -0x1_0000_0000_0000_0000_0000_0000 < v < 0x1_0000_0000_0000_0000_0000_0000,
    ensures
        r == wrap_spec(v as int),
        0 <= r < TAU_FP,
{
    let t: i128 = TAU_FP as i128;
    let m: i128 = v % t;
    proof {
        let ti = TAU_FP as int;
        if v >= 0 {
            lemma_fundamental_div_mod(v as int, ti);
        } else {
            let w: int = -(v as int);
            let q: int = w / ti;
            let rr: int = w % ti;
            lemma_fundamental_div_mod(w, ti);
            if rr == 0 {
                assert(v as int == (-q) * ti + 0) by {
                    lemma_mul_is_commutative(-q, ti);
                }
                lemma_fundamental_div_mod_converse_mod(v as int, ti, -q, 0);
            } else {
                assert(v as int == (-q - 1) * ti + (ti - rr)) by {
                    lemma_mul_is_distributive_add_other_way(ti, -q, -1);
                    lemma_mul_is_commutative(-q, ti);
                    lemma_mul_is_commutative(-q - 1, ti);
                }
                lemma_fundamental_div_mod_converse_mod(v as int, ti, -q - 1, ti - rr);
            }
        }
    }
    if m < 0 {
        (m + t) as i64
    } else {
        m as i64
    }
}

/// Sum of a sequence of fixed-point samples.
pub open spec fn sum_seq(s: Seq<i64>) -> int
    decreases s.len(),
{
    if s.len() == 0 {
        0
    } else {
        sum_seq(s.drop_last()) + s.last()
    }
}

pub proof fn lemma_sum_seq_bounds(s: Seq<i64>, lo: int, hi: int)
    requires
        forall|i: int| 0 <= i < s.len() ==> lo <= #[trigger] s[i] <= hi,
    ensures
        s.len() * lo <= sum_seq(s) <= s.len() * hi,
    decreases s.len(),
{
    if s.len() == 0 {
    } else {
        lemma_sum_seq_bounds(s.drop_last(), lo, hi);
        lemma_mul_is_distributive_add_other_way(lo, s.len() - 1, 1);
        lemma_mul_is_distributive_add_other_way(hi, s.len() - 1, 1);
    }
}

pub proof fn lemma_sum_seq_take_step(s: Seq<i64>, i: int)
    requires
        0 <= i < s.len(),
    ensures
        sum_seq(s.take(i + 1)) == sum_seq(s.take(i)) + s[i],
{
    assert(s.take(i + 1).drop_last() =~= s.take(i));
    assert(s.take(i + 1).last() == s[i]);
}

/// Sum of the entries of `v`, each known to lie in `[0, bound]`.
pub fn sum_vec(v: &Vec<i64>, bound: i64) -> (r: i64)
    requires
        0 <= bound,
        v@.len() * bound <= 0x7fff_ffff_ffff_ffff,
        forall|i: int| 0 <= i < v@.len() ==> 0 <= #[trigger] v@[i] <= bound,
    ensures
        r == sum_seq(v@),
        0 <= r <= v@.len() * bound,
{
    let mut acc: i64 = 0;
    let mut i: usize = 0;
    proof {
        assert(v@.take(0) =~= Seq::<i64>::empty());
    }
    while i < v.len()
        invariant
            0 <= i <= v@.len(),
            0 <= bound,
            v@.len() * bound <= 0x7fff_ffff_ffff_ffff,
            forall|j: int| 0 <= j < v@.len() ==> 0 <= #[trigger] v@[j] <= bound,
            acc == sum_seq(v@.take(i as int)),
            0 <= acc <= i * bound,
        decreases v@.len() - i,
    {
        proof {
            lemma_sum_seq_take_step(v@, i as int);
            lemma_mul_is_distributive_add_other_way(bound as int, i as int, 1);
            lemma_mul_inequality(i as int + 1, v@.len() as int, bound as int);
            lemma_mul_is_commutative(i as int + 1, bound as int);
            lemma_mul_is_commutative(v@.len() as int, bound as int);
        }
        acc = acc + v[i];
        i = i + 1;
    }
    proof {
        assert(v@.take(v@.len() as int) =~= v@);
    }
    acc
}

/// Fixed-point sine over `[0, TAU_FP)`, by the symmetric parabola
/// `sin x ~ 4 x (pi - x) / pi^2` on each half turn. The result is exact as an
/// integer formula and always lies in `[-SCALE, SCALE]`.
pub open spec fn sin_half_spec(x: int) -> int {
    4 * x * (PI_FP - x) * (SCALE as int) / ((PI_FP as int) * (PI_FP as int))
}

pub open spec fn sin_fp_spec(x: int) -> int {
    if x <= PI_FP {
        sin_half_spec(x)
    } else {
        -sin_half_spec(x - PI_FP)
    }
}

proof fn lemma_sin_half_bounds(x: int)
    requires
        0 <= x <= PI_FP,
    ensures
        0 <= sin_half_spec(x) <= SCALE,
{
    let pi = PI_FP as int;
    let num = 4 * x * (pi - x) * (SCALE as int);
    let den = pi * pi;
    assert(0 <= 4 * x * (pi - x) && 4 * x * (pi - x) <= pi * pi) by (nonlinear_arith)
        requires
            0 <= x <= pi,
    {
        assert((pi - 2 * x) * (pi - 2 * x) >= 0);
    }
    assert(num <= den * (SCALE as int)) by (nonlinear_arith)
        requires
            4 * x * (pi - x) <= pi * pi,
            num == 4 * x * (pi - x) * (SCALE as int),
            den == pi * pi,
    ;
    assert(num >= 0) by (nonlinear_arith)
        requires
            0 <= 4 * x * (pi - x),
            num == 4 * x * (pi - x) * (SCALE as int),
    ;
    lemma_div_pos_is_pos(num, den);
    lemma_multiply_divide_le(num, den, SCALE as int);
}

pub proof fn lemma_sin_fp_bounds(x: int)
    requires
        0 <= x < TAU_FP,
    ensures
        -SCALE <= sin_fp_spec(x) <= SCALE,
{
    if x <= PI_FP {
        lemma_sin_half_bounds(x);
    } else {
        lemma_sin_half_bounds(x - PI_FP);
    }
}

pub fn sin_fp(x: i64) -> (r: i64)
    requires
        0 <= x < TAU_FP,
    ensures
        r == sin_fp_spec(x as int),
        -SCALE <= r <= SCALE,
{
    proof {
        lemma_sin_fp_bounds(x as int);
    }
    if x <= PI_FP {
        sin_half(x)
    } else {
        let r = sin_half(x - PI_FP);
        -r
    }
}

fn sin_half(x: i64) -> (r: i64)
    requires
        0 <= x <= PI_FP,
    ensures
        r == sin_half_spec(x as int),
        0 <= r <= SCALE,
{
    proof {
        lemma_sin_half_bounds(x as int);
    }
    let xi: i128 = x as i128;
    let pi: i128 = PI_FP as i128;
    proof {
        assert(0 <= 4 * (x as int) * ((PI_FP - x) as int) <= 4 * 3_141_593int * 3_141_593int)
            by (nonlinear_arith)
            requires
                0 <= x <= 3_141_593,
        ;
    }
    let num: i128 = 4 * xi * (pi - xi) * (SCALE as i128);
    let den: i128 = pi * pi;
    proof {
        assert(num >= 0) by (nonlinear_arith)
            requires
                num == 4 * (x as int) * ((PI_FP - x) as int) * (SCALE as int),
                0 <= x <= PI_FP,
        ;
    }
    (num / den) as i64
}

/// Integer square root: the floor of the square root of `n`.
pub fn isqrt(n: u128) -> (r: u64)
    requires
        n < 0x4000_0000_0000_0000_0000_0000,
    ensures
        (r as int) * (r as int) <= n,
        n < (r as int + 1) * (r as int + 1),
{
    let mut lo: u128 = 0;
    let mut hi: u128 = 0x8000_0000_0000;
    proof {
        assert((0x8000_0000_0000 as int) * (0x8000_0000_0000 as int) > n);
    }
    while hi - lo > 1
        invariant
            0 <= lo < hi <= 0x8000_0000_0000,
            (lo as int) * (lo as int) <= n,
            n < (hi as int) * (hi as int),
        decreases hi - lo,
    {
        let mid: u128 = lo + (hi - lo) / 2;
        proof {
            assert(mid * mid <= 0x8000_0000_0000int * 0x8000_0000_0000int) by (nonlinear_arith)
                requires
                    0 <= mid <= 0x8000_0000_0000,
            ;
        }
        if mid * mid <= n {
            lo = mid;
        } else {
            hi = mid;
        }
    }
    lo as u64
}

} // verus!
