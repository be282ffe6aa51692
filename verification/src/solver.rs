//! The intercept solver: stateless geometry.  Given relative target
//! position `p`, relative target velocity `v` (both milli-units) and a
//! projectile speed `s`, find the earliest time a projectile fired now
//! can meet the target, ignoring drag and gravity, by solving
//! `a t^2 + b t + c = 0` with `a = v.v - s^2`, `b = 2 p.v`, `c = p.p`
//! (derived from `|p + t v| = s t`).  Times are in milli-seconds.
//!
//! Root policy: a negative discriminant means no solution (the sentinel
//! `-1`); with two positive roots the smaller (earliest) wins; with one,
//! that one; with none, the sentinel.  On failure the caller falls back
//! to a first-order linear lead, never to the target's current position.
//! When `a` is exactly zero (target exactly at projectile speed) the
//! equation is linear and is solved directly.
//!
//! A bounded fixed-point iteration `t <- |p + t v| / s` serves as a
//! cross-check of the closed form.

use vstd::prelude::*;
use crate::vec2::{Vec2I, lemma_sum_product_bound, lemma_square_nonneg};
use crate::config::PROJECTILE_SPEED_LIMIT;
use crate::num::{div_t, abs_i, div_i64, div_i128, isqrt_u128, sqrt_floor,
    lemma_div_t_abs};

verus! {

/// Largest relative position component the closed-form solver accepts.
pub const SOLVER_POS_LIMIT: i64 = 4_000_000_000;

/// Largest relative velocity component the closed-form solver accepts.
pub const SOLVER_VEL_LIMIT: i64 = 400_000_000;

/// Iteration time cap, milli-seconds: a fixed point beyond this is a
/// degenerate geometry and reported as no solution.
pub const ITER_TIME_CAP: i128 = 10_000_000_000;

/// Iterations of the fixed-point cross-check.
pub const ITER_ROUNDS: u32 = 20;

/// An aim point, milli-units.  Carried in `i128`: a long intercept of a
/// fast target can stand outside the arena.
#[derive(Clone, Copy, Debug, PartialEq, Eq, Structural)]
pub struct AimPoint {
    pub x: i128,
    pub y: i128,
}

/// Quadratic coefficient `a = v.v - s^2`.
pub open spec fn quad_a(v: Vec2I, s: int) -> int {
    v.spec_dot(v) - s * s
}

/// Quadratic coefficient `b = 2 p.v`.
pub open spec fn quad_b(p: Vec2I, v: Vec2I) -> int {
    2 * p.spec_dot(v)
}

/// Quadratic coefficient `c = p.p`.
pub open spec fn quad_c(p: Vec2I) -> int {
    p.spec_dot(p)
}

/// The discriminant `b^2 - 4 a c`.
pub open spec fn discriminant(p: Vec2I, v: Vec2I, s: int) -> int {
    quad_b(p, v) * quad_b(p, v) - 4 * quad_a(v, s) * quad_c(p)
}

/// The closed-form intercept time in milli-seconds, `-1` when no
/// positive solution exists.
pub open spec fn intercept_time_spec(p: Vec2I, v: Vec2I, s: int) -> int {
    let a = quad_a(v, s);
    let b = quad_b(p, v);
    let c = quad_c(p);
    let disc = discriminant(p, v, s);
    if disc < 0 {
        -1
    } else if a != 0 {
        let sq = sqrt_floor(disc as nat) as int;
        let x1 = div_t(1000 * (-b - sq), 2 * a);
        let x2 = div_t(1000 * (-b + sq), 2 * a);
        if x1 > 0 && x2 > 0 {
            if x1 <= x2 {
                x1
            } else {
                x2
            }
        } else if x1 > 0 {
            x1
        } else if x2 > 0 {
            x2
        } else {
            -1
        }
    } else if b != 0 {
        let x = div_t(-1000 * c, b);
        if x > 0 {
            x
        } else {
            -1
        }
    } else {
        -1
    }
}

/// Solver input ranges: inside them every intermediate fits `i128`.
pub open spec fn in_solver_range(p: Vec2I, v: Vec2I) -> bool {
    &&& -SOLVER_POS_LIMIT <= p.x <= SOLVER_POS_LIMIT
    &&& -SOLVER_POS_LIMIT <= p.y <= SOLVER_POS_LIMIT
    &&& -SOLVER_VEL_LIMIT <= v.x <= SOLVER_VEL_LIMIT
    &&& -SOLVER_VEL_LIMIT <= v.y <= SOLVER_VEL_LIMIT
}

/// Closed-form smallest positive intercept time, milli-seconds; `-1` is
/// the no-solution sentinel.  A negative discriminant always yields the
/// sentinel, never a panic.
pub fn intercept_time_millis(p: Vec2I, v: Vec2I, speed: i64) -> (t: i128)
    requires
        in_solver_range(p, v),
        0 < speed <= PROJECTILE_SPEED_LIMIT,
    ensures
        t == intercept_time_spec(p, v, speed as int),
        discriminant(p, v, speed as int) < 0 ==> t == -1,
        t != -1 ==> t > 0,
        t <= 250_000_000_000_000_000_000_000,
{
    proof {
        lemma_sum_product_bound(v.x as int, v.y as int, v.x as int, v.y as int,
            SOLVER_VEL_LIMIT as int, SOLVER_VEL_LIMIT as int);
        lemma_sum_product_bound(p.x as int, p.y as int, v.x as int, v.y as int,
            SOLVER_POS_LIMIT as int, SOLVER_VEL_LIMIT as int);
        lemma_sum_product_bound(p.x as int, p.y as int, p.x as int, p.y as int,
            SOLVER_POS_LIMIT as int, SOLVER_POS_LIMIT as int);
        lemma_square_nonneg(p.x as int);
        lemma_square_nonneg(p.y as int);
        assert(0 <= (speed as int) * (speed as int) <= (PROJECTILE_SPEED_LIMIT as int)
            * (PROJECTILE_SPEED_LIMIT as int)) by (nonlinear_arith)
            requires
                0 < speed <= PROJECTILE_SPEED_LIMIT,
        ;
    }
    let a: i128 = v.dot(v) - (speed as i128) * (speed as i128);
    let b: i128 = 2 * p.dot(v);
    let c: i128 = p.dot(p);
    proof {
        assert(abs_i(b as int) <= 7_000_000_000_000_000_000);
        assert(abs_i(a as int) <= 500_000_000_000_000_000);
        assert(abs_i(c as int) <= 32_000_000_000_000_000_000);
        assert(b * b <= 49_000_000_000_000_000_000_000_000_000_000_000_000
            && b * b >= 0) by (nonlinear_arith)
            requires
                abs_i(b as int) <= 7_000_000_000_000_000_000,
        ;
        assert(abs_i(4 * a * c) <= 64_000_000_000_000_000_000_000_000_000_000_000_000)
            by (nonlinear_arith)
            requires
                abs_i(a as int) <= 500_000_000_000_000_000,
                abs_i(c as int) <= 32_000_000_000_000_000_000,
        ;
    }
    let disc: i128 = b * b - 4 * a * c;
    if disc < 0 {
        return -1;
    }
    if a != 0 {
        let sq_u = isqrt_u128(disc as u128);
        proof {
            assert(sq_u * sq_u <= disc as u128);
            assert(sq_u < 200_000_000_000_000_000_000u128) by (nonlinear_arith)
                requires
                    sq_u * sq_u <= disc as u128,
                    disc as u128 <= 113_000_000_000_000_000_000_000_000_000_000_000_000u128,
            ;
        }
        let sq: i128 = sq_u as i128;
        let num1: i128 = 1000 * (-b - sq);
        let num2: i128 = 1000 * (-b + sq);
        let x1 = div_i128(num1, 2 * a);
        let x2 = div_i128(num2, 2 * a);
        proof {
            lemma_div_t_abs(num1 as int, 2 * a);
            lemma_div_t_abs(num2 as int, 2 * a);
        }
        if x1 > 0 && x2 > 0 {
            if x1 <= x2 {
                x1
            } else {
                x2
            }
        } else if x1 > 0 {
            x1
        } else if x2 > 0 {
            x2
        } else {
            -1
        }
    } else if b != 0 {
        let x = div_i128(-1000 * c, b);
        proof {
            lemma_div_t_abs(-1000 * c, b as int);
        }
        if x > 0 {
            x
        } else {
            -1
        }
    } else {
        -1
    }
}

/// The aim point for a given intercept time: `p + t v / 1000`.
pub fn aim_from_time(p: Vec2I, v: Vec2I, t_millis: i128) -> (r: AimPoint)
    requires
        0 <= t_millis <= 1_000_000_000_000_000_000_000_000,
        -SOLVER_VEL_LIMIT <= v.x <= SOLVER_VEL_LIMIT,
        -SOLVER_VEL_LIMIT <= v.y <= SOLVER_VEL_LIMIT,
    ensures
        r.x == p.x + div_t(t_millis * v.x, 1000),
        r.y == p.y + div_t(t_millis * v.y, 1000),
{
    proof {
        assert(abs_i(t_millis * v.x) <= 1_000_000_000_000_000_000_000_000
            * (SOLVER_VEL_LIMIT as int)) by (nonlinear_arith)
            requires
                0 <= t_millis <= 1_000_000_000_000_000_000_000_000,
                abs_i(v.x as int) <= SOLVER_VEL_LIMIT,
        ;
        assert(abs_i(t_millis * v.y) <= 1_000_000_000_000_000_000_000_000
            * (SOLVER_VEL_LIMIT as int)) by (nonlinear_arith)
            requires
                0 <= t_millis <= 1_000_000_000_000_000_000_000_000,
                abs_i(v.y as int) <= SOLVER_VEL_LIMIT,
        ;
        lemma_div_t_abs(t_millis * v.x, 1000);
        lemma_div_t_abs(t_millis * v.y, 1000);
    }
    let gx = div_i128(t_millis * (v.x as i128), 1000);
    let gy = div_i128(t_millis * (v.y as i128), 1000);
    AimPoint { x: p.x as i128 + gx, y: p.y as i128 + gy }
}

/// Largest relative position component the linear-lead fallback accepts
/// (it covers any live track, however far it has drifted).
pub const LEAD_POS_LIMIT: i64 = 8_000_000_000_000_000;

/// Largest relative velocity component the linear-lead fallback accepts.
pub const LEAD_VEL_LIMIT: i64 = 20_000_000_000_000;

/// The first-order linear lead in per-tick units:
/// `p + (v / tps) * |p| / ceil(speed / tps)`.
pub fn linear_lead(p: Vec2I, v: Vec2I, speed: i64, tps: u32) -> (r: AimPoint)
    requires
        -LEAD_POS_LIMIT <= p.x <= LEAD_POS_LIMIT,
        -LEAD_POS_LIMIT <= p.y <= LEAD_POS_LIMIT,
        -LEAD_VEL_LIMIT <= v.x <= LEAD_VEL_LIMIT,
        -LEAD_VEL_LIMIT <= v.y <= LEAD_VEL_LIMIT,
        0 < speed <= PROJECTILE_SPEED_LIMIT,
        1 <= tps <= 600,
    ensures
        ({
            let len_p = sqrt_floor(p.spec_norm2() as nat) as int;
            let s_pt = div_t(speed + tps - 1, tps as int);
            &&& r.x == p.x + div_t(div_t(v.x as int, tps as int) * len_p, s_pt)
            &&& r.y == p.y + div_t(div_t(v.y as int, tps as int) * len_p, s_pt)
        }),
{
    let tps64: i64 = tps as i64;
    proof {
        lemma_div_t_abs(v.x as int, tps64 as int);
        lemma_div_t_abs(v.y as int, tps64 as int);
        lemma_div_t_abs(speed + tps64 - 1, tps64 as int);
    }
    let vptx = div_i64(v.x, tps64);
    let vpty = div_i64(v.y, tps64);
    let s_pt = div_i64(speed + tps64 - 1, tps64);
    proof {
        vstd::arithmetic::div_mod::lemma_div_non_zero(speed + tps64 - 1, tps64 as int);
    }
    let lp = p.len_floor();
    proof {
        assert(lp <= 12_000_000_000_000_000) by {
            if lp > 12_000_000_000_000_000 {
                assert(lp * lp > 2 * (LEAD_POS_LIMIT as int) * (LEAD_POS_LIMIT as int))
                    by (nonlinear_arith)
                    requires
                        lp > 12_000_000_000_000_000,
                ;
                lemma_sum_product_bound(p.x as int, p.y as int, p.x as int, p.y as int,
                    LEAD_POS_LIMIT as int, LEAD_POS_LIMIT as int);
            }
        }
        assert(abs_i((vptx as int) * (lp as int)) <= (LEAD_VEL_LIMIT as int)
            * 12_000_000_000_000_000) by (nonlinear_arith)
            requires
                abs_i(vptx as int) <= LEAD_VEL_LIMIT,
                0 <= lp <= 12_000_000_000_000_000,
        ;
        assert(abs_i((vpty as int) * (lp as int)) <= (LEAD_VEL_LIMIT as int)
            * 12_000_000_000_000_000) by (nonlinear_arith)
            requires
                abs_i(vpty as int) <= LEAD_VEL_LIMIT,
                0 <= lp <= 12_000_000_000_000_000,
        ;
        lemma_div_t_abs((vptx as int) * (lp as int), s_pt as int);
        lemma_div_t_abs((vpty as int) * (lp as int), s_pt as int);
    }
    let gx = div_i128((vptx as i128) * (lp as i128), s_pt as i128);
    let gy = div_i128((vpty as i128) * (lp as i128), s_pt as i128);
    AimPoint { x: p.x as i128 + gx, y: p.y as i128 + gy }
}

/// How an aim point was obtained: a true intercept solution, or the
/// linear-lead fallback after solver failure or out-of-range inputs.
#[derive(Clone, Copy, Debug, PartialEq, Eq, Structural)]
pub enum LeadPlan {
    Intercept(AimPoint),
    LinearLead(AimPoint),
}

/// What `plan_lead` promises: a closed-form intercept aim when the
/// inputs are in solver range and a positive solution exists, otherwise
/// the exact first-order linear lead.
pub open spec fn lead_plan_ok(p: Vec2I, v: Vec2I, speed: int, tps: int, r: LeadPlan) -> bool {
    let t = intercept_time_spec(p, v, speed);
    let len_p = sqrt_floor(p.spec_norm2() as nat) as int;
    let s_pt = div_t(speed + tps - 1, tps);
    if in_solver_range(p, v) && t > 0 {
        &&& r matches LeadPlan::Intercept(aim)
        &&& aim.x == p.x + div_t(t * v.x, 1000)
        &&& aim.y == p.y + div_t(t * v.y, 1000)
    } else {
        &&& r matches LeadPlan::LinearLead(aim)
        &&& aim.x == p.x + div_t(div_t(v.x as int, tps) * len_p, s_pt)
        &&& aim.y == p.y + div_t(div_t(v.y as int, tps) * len_p, s_pt)
    }
}

/// Compute an aim point for any relative geometry: the closed-form
/// intercept when the inputs are in solver range and a positive
/// solution exists, the first-order linear lead otherwise — never the
/// target's current position.
pub fn plan_lead(p: Vec2I, v: Vec2I, speed: i64, tps: u32) -> (r: LeadPlan)
    requires
        -LEAD_POS_LIMIT <= p.x <= LEAD_POS_LIMIT,
        -LEAD_POS_LIMIT <= p.y <= LEAD_POS_LIMIT,
        -LEAD_VEL_LIMIT <= v.x <= LEAD_VEL_LIMIT,
        -LEAD_VEL_LIMIT <= v.y <= LEAD_VEL_LIMIT,
        0 < speed <= PROJECTILE_SPEED_LIMIT,
        1 <= tps <= 600,
    ensures
        lead_plan_ok(p, v, speed as int, tps as int, r),
{
    if -SOLVER_POS_LIMIT <= p.x && p.x <= SOLVER_POS_LIMIT
        && -SOLVER_POS_LIMIT <= p.y && p.y <= SOLVER_POS_LIMIT
        && -SOLVER_VEL_LIMIT <= v.x && v.x <= SOLVER_VEL_LIMIT
        && -SOLVER_VEL_LIMIT <= v.y && v.y <= SOLVER_VEL_LIMIT {
        let t = intercept_time_millis(p, v, speed);
        if t > 0 {
            return LeadPlan::Intercept(aim_from_time(p, v, t));
        }
    }
    LeadPlan::LinearLead(linear_lead(p, v, speed, tps))
}

/// One step of the fixed-point iteration `t <- |p + t v| / s`, with
/// `t` in milli-seconds.
pub open spec fn iter_step(p: Vec2I, v: Vec2I, s: int, t: int) -> int {
    let ex = 1000 * p.x + t * v.x;
    let ey = 1000 * p.y + t * v.y;
    div_t(sqrt_floor((ex * ex + ey * ey) as nat) as int, s)
}

/// The bounded fixed-point iteration, seeded at `t`, stopping early once
/// consecutive values stop increasing (the integer analogue of differing
/// by less than machine epsilon) and reporting `-1` when the time runs
/// past `ITER_TIME_CAP` (a degenerate geometry).
pub open spec fn iterate_time(p: Vec2I, v: Vec2I, s: int, t: int, fuel: nat) -> int
    decreases fuel,
{
    if fuel == 0 {
        t
    } else {
        let t2 = iter_step(p, v, s, t);
        if t2 > ITER_TIME_CAP {
            -1
        } else if t2 <= t {
            t2
        } else {
            iterate_time(p, v, s, t2, (fuel - 1) as nat)
        }
    }
}

/// Iterative intercept time: the verification cross-check of the closed
/// form, `-1` when the iteration leaves the supported time range.
pub fn iterative_time_millis(p: Vec2I, v: Vec2I, speed: i64) -> (t: i128)
    requires
        in_solver_range(p, v),
        0 < speed <= PROJECTILE_SPEED_LIMIT,
    ensures
        t == iterate_time(p, v, speed as int, 0, ITER_ROUNDS as nat),
        -1 <= t <= ITER_TIME_CAP,
{
    let mut t: i128 = 0;
    let mut fuel: u32 = ITER_ROUNDS;
    while fuel > 0
        invariant
            in_solver_range(p, v),
            0 < speed <= PROJECTILE_SPEED_LIMIT,
            0 <= t <= ITER_TIME_CAP,
            fuel <= ITER_ROUNDS,
            iterate_time(p, v, speed as int, 0, ITER_ROUNDS as nat)
                == iterate_time(p, v, speed as int, t as int, fuel as nat),
        decreases fuel,
    {
        proof {
            assert(abs_i(t * v.x) <= ITER_TIME_CAP * (SOLVER_VEL_LIMIT as int))
                by (nonlinear_arith)
                requires
                    0 <= t <= ITER_TIME_CAP,
                    abs_i(v.x as int) <= SOLVER_VEL_LIMIT,
            ;
            assert(abs_i(t * v.y) <= ITER_TIME_CAP * (SOLVER_VEL_LIMIT as int))
                by (nonlinear_arith)
                requires
                    0 <= t <= ITER_TIME_CAP,
                    abs_i(v.y as int) <= SOLVER_VEL_LIMIT,
            ;
        }
        let ex: i128 = 1000 * (p.x as i128) + t * (v.x as i128);
        let ey: i128 = 1000 * (p.y as i128) + t * (v.y as i128);
        proof {
            assert(0 <= ex * ex <= 6_000_000_000_000_000_000 * 6_000_000_000_000_000_000int)
                by (nonlinear_arith)
                requires
                    abs_i(ex as int) <= 6_000_000_000_000_000_000,
            ;
            assert(0 <= ey * ey <= 6_000_000_000_000_000_000 * 6_000_000_000_000_000_000int)
                by (nonlinear_arith)
                requires
                    abs_i(ey as int) <= 6_000_000_000_000_000_000,
            ;
        }
        let n: i128 = ex * ex + ey * ey;
        let sq = isqrt_u128(n as u128);
        proof {
            assert(sq <= 9_000_000_000_000_000_000u128) by (nonlinear_arith)
                requires
                    sq * sq <= n as u128,
                    n as u128 <= 72_000_000_000_000_000_000_000_000_000_000_000_000u128,
            ;
            lemma_div_t_abs(sq as int, speed as int);
        }
        let t2 = div_i128(sq as i128, speed as i128);
        if t2 > ITER_TIME_CAP {
            return -1;
        }
        if t2 <= t {
            return t2;
        }
        t = t2;
        fuel = fuel - 1;
    }
    t
}

} // verus!
