//! The angular convergence controller: map a heading error `e` (wrapped
//! to one turn) and the current angular velocity `w` to a commanded
//! angular acceleration `k*e - 2*sqrt(k)*w` — critically damped for a
//! unit-inertia rotational system.  Angles are milli-radians, times
//! seconds.
//!
//! The operating mode is derived from the current error magnitude each
//! tick, with no persistent state: coarse-turn at large errors, a
//! fine-hold gain below the coarse threshold, and, near zero error, a
//! direct rate command with the weapon gated on convergence (and a range
//! check supplied by the caller).

use vstd::prelude::*;
use crate::num::{div_t, abs_i, div_i64, isqrt_u128, sqrt_floor, lemma_div_t_abs};

verus! {

/// One half turn, milli-radians (pi, truncated).
pub const PI_MILLIRAD: i64 = 3141;

/// One full turn, milli-radians.
pub const TAU_MILLIRAD: i64 = 6283;

/// Headings this large (about 1.6e14 turns) are accepted by the wrap.
pub const HEADING_LIMIT: i64 = 1_000_000_000_000_000_000;

/// An angle folded into `[-PI_MILLIRAD, TAU_MILLIRAD - 1 - PI_MILLIRAD]`.
pub open spec fn wrap_to_pi_spec(a: int) -> int {
    (a + PI_MILLIRAD) % (TAU_MILLIRAD as int) - PI_MILLIRAD
}

/// Fold an angle into one turn centered on zero.
pub fn wrap_to_pi(a: i64) -> (r: i64)
    requires
        -HEADING_LIMIT <= a <= HEADING_LIMIT,
    ensures
        r == wrap_to_pi_spec(a as int),
        -PI_MILLIRAD <= r <= PI_MILLIRAD + 1,
{
    let shifted: i64 = a + PI_MILLIRAD;
    let m = shifted.checked_rem_euclid(TAU_MILLIRAD);
    m.unwrap() - PI_MILLIRAD
}

/// Shortest signed rotation from heading `a` to heading `b`.
pub open spec fn angle_diff_spec(a: int, b: int) -> int {
    wrap_to_pi_spec(b - a)
}

/// Shortest signed rotation from heading `a` to heading `b`,
/// milli-radians.
pub fn angle_diff(a: i64, b: i64) -> (r: i64)
    requires
        -HEADING_LIMIT < a < HEADING_LIMIT,
        -HEADING_LIMIT < b < HEADING_LIMIT,
    ensures
        r == angle_diff_spec(a as int, b as int),
        -PI_MILLIRAD <= r <= PI_MILLIRAD + 1,
{
    proof {
        assert(-2 * HEADING_LIMIT < b - a < 2 * HEADING_LIMIT);
    }
    let d: i64 = b - a;
    let shifted: i64 = d + PI_MILLIRAD;
    let m = shifted.checked_rem_euclid(TAU_MILLIRAD);
    m.unwrap() - PI_MILLIRAD
}

/// `sqrt(k)` in milli-units: the floor square root of `k * 10^6`.
pub open spec fn sqrt_gain_milli(gain: int) -> int {
    sqrt_floor((gain * 1_000_000) as nat) as int
}

/// Largest accepted controller gain.
pub const GAIN_LIMIT: i64 = 1_000_000;

/// Largest accepted heading-error magnitude, milli-radians (a wrapped
/// error is always within it).
pub const ERROR_LIMIT: i64 = 10_000;

/// Largest accepted angular velocity magnitude, milli-radians per
/// second.
pub const ANGULAR_VEL_LIMIT: i64 = 100_000_000;

/// The commanded angular acceleration `k*e - 2*sqrt(k)*w`, exact over
/// the milli-unit model: `sqrt(k)` carries three fractional digits, and
/// the damping term is truncated back to milli-units.
pub open spec fn angular_accel_spec(gain: int, e: int, w: int) -> int {
    gain * e - div_t(2 * sqrt_gain_milli(gain) * w, 1000)
}

/// Commanded angular acceleration (milli-radians per second squared)
/// from heading error `e` and angular velocity `w`, with gain `k`:
/// `k*e - 2*sqrt(k)*w`, critically damped.
pub fn angular_accel(gain: i64, error_millirad: i64, angular_vel_millirad: i64) -> (a: i64)
    requires
        0 < gain <= GAIN_LIMIT,
        -ERROR_LIMIT <= error_millirad <= ERROR_LIMIT,
        -ANGULAR_VEL_LIMIT <= angular_vel_millirad <= ANGULAR_VEL_LIMIT,
    ensures
        a == angular_accel_spec(gain as int, error_millirad as int,
            angular_vel_millirad as int),
{
    let g2: u128 = (gain as u128) * 1_000_000;
    let sg_u = isqrt_u128(g2);
    proof {
        assert(sg_u <= 1_000_000u128) by (nonlinear_arith)
            requires
                sg_u * sg_u <= g2,
                g2 <= 1_000_000_000_000u128,
        ;
    }
    let sg: i64 = sg_u as i64;
    proof {
        assert(abs_i(2 * sg * angular_vel_millirad) <= 2 * 1_000_000
            * (ANGULAR_VEL_LIMIT as int)) by (nonlinear_arith)
            requires
                0 <= sg <= 1_000_000,
                abs_i(angular_vel_millirad as int) <= ANGULAR_VEL_LIMIT,
        ;
        lemma_div_t_abs(2 * sg * angular_vel_millirad, 1000);
        assert(abs_i(gain * error_millirad) <= (GAIN_LIMIT as int) * (ERROR_LIMIT as int))
            by (nonlinear_arith)
            requires
                0 < gain <= GAIN_LIMIT,
                abs_i(error_millirad as int) <= ERROR_LIMIT,
        ;
    }
    let damping = div_i64(2 * sg * angular_vel_millirad, 1000);
    gain * error_millirad - damping
}

/// Ceiling division for nonnegative dividends.
pub open spec fn ceil_div(a: int, b: int) -> int {
    div_t(a + b - 1, b)
}

/// The bang-bang throttle of a fastest rotation onto a mark: full
/// torque toward the mark while stopping still takes fewer ticks than
/// reaching it, full counter-torque once it does not.
pub open spec fn snap_throttle_spec(delta: int, w: int, max_accel: int, tps: int) -> int {
    let est_ticks = ceil_div(abs_i(delta) * tps, max_accel);
    let stop_ticks = ceil_div(abs_i(w), max_accel);
    let sign = if delta >= 0 {
        1int
    } else {
        -1int
    };
    if stop_ticks < est_ticks {
        sign
    } else {
        -sign
    }
}

/// Throttle sign (+1 or -1) for a fastest snap onto a heading mark
/// `delta` milli-radians away, given angular velocity `w` and the
/// actuator's maximum angular acceleration (milli-radians per second
/// squared); the caller applies it at full torque.
pub fn snap_throttle(delta_millirad: i64, angular_vel_millirad: i64,
    max_accel_millirad: i64, tps: u32) -> (t: i64)
    requires
        -ERROR_LIMIT <= delta_millirad <= ERROR_LIMIT,
        -ANGULAR_VEL_LIMIT <= angular_vel_millirad <= ANGULAR_VEL_LIMIT,
        0 < max_accel_millirad <= 1_000_000_000,
        1 <= tps <= 600,
    ensures
        t == snap_throttle_spec(delta_millirad as int, angular_vel_millirad as int,
            max_accel_millirad as int, tps as int),
{
    let mag_d: i64 = if delta_millirad >= 0 {
        delta_millirad
    } else {
        -delta_millirad
    };
    let mag_w: i64 = if angular_vel_millirad >= 0 {
        angular_vel_millirad
    } else {
        -angular_vel_millirad
    };
    proof {
        assert(0 <= mag_d * tps <= (ERROR_LIMIT as int) * 600) by (nonlinear_arith)
            requires
                0 <= mag_d <= ERROR_LIMIT,
                1 <= tps <= 600,
        ;
    }
    let est = div_i64(mag_d * (tps as i64) + max_accel_millirad - 1, max_accel_millirad);
    let stop = div_i64(mag_w + max_accel_millirad - 1, max_accel_millirad);
    let sign: i64 = if delta_millirad >= 0 {
        1
    } else {
        -1
    };
    if stop < est {
        sign
    } else {
        -sign
    }
}

/// The operating mode, derived from the current error magnitude alone:
/// coarse-turn, fine-hold, then fire-eligible.
#[derive(Clone, Copy, Debug, PartialEq, Eq, Structural)]
pub enum TurnMode {
    Coarse,
    Fine,
    FireEligible,
}

/// Mode selection by error magnitude.
pub open spec fn turn_mode_spec(e: int, coarse_threshold: int, fine_threshold: int) -> TurnMode {
    if abs_i(e) > coarse_threshold {
        TurnMode::Coarse
    } else if abs_i(e) > fine_threshold {
        TurnMode::Fine
    } else {
        TurnMode::FireEligible
    }
}

/// Derive the operating mode from the current heading error.
pub fn turn_mode(error_millirad: i64, coarse_threshold: i64, fine_threshold: i64) -> (m: TurnMode)
    requires
        0 <= fine_threshold <= coarse_threshold,
        error_millirad > i64::MIN,
    ensures
        m == turn_mode_spec(error_millirad as int, coarse_threshold as int,
            fine_threshold as int),
{
    let mag: i64 = if error_millirad >= 0 {
        error_millirad
    } else {
        -error_millirad
    };
    if mag > coarse_threshold {
        TurnMode::Coarse
    } else if mag > fine_threshold {
        TurnMode::Fine
    } else {
        TurnMode::FireEligible
    }
}

/// A rotational actuation: an angular acceleration to apply as torque,
/// or a direct turn-rate command for the final hold before firing.
#[derive(Clone, Copy, Debug, PartialEq, Eq, Structural)]
pub enum Actuation {
    Torque(i64),
    TurnRate(i64),
}

/// One tick's steering decision.
#[derive(Clone, Copy, Debug, PartialEq, Eq, Structural)]
pub struct SteerCommand {
    pub actuation: Actuation,
    pub fire: bool,
}

/// Controller gains and mode thresholds, supplied by the caller: a low
/// coarse gain turns without saturating actuation, a high fine gain
/// holds the mark, and the rate gain drives the direct rate command
/// near zero error.
#[derive(Clone, Copy, Debug, PartialEq, Eq, Structural)]
pub struct SteerGains {
    pub coarse_gain: i64,
    pub fine_gain: i64,
    pub rate_gain: i64,
    pub coarse_threshold: i64,
    pub fine_threshold: i64,
}

impl SteerGains {
    /// Positive bounded gains and ordered thresholds.
    pub open spec fn wf(self) -> bool {
        &&& 0 < self.coarse_gain <= GAIN_LIMIT
        &&& 0 < self.fine_gain <= GAIN_LIMIT
        &&& 0 < self.rate_gain <= GAIN_LIMIT
        &&& 0 <= self.fine_threshold <= self.coarse_threshold <= ERROR_LIMIT
    }
}

/// Steer toward `target_heading`: wrap the error, pick the mode from its
/// magnitude, and command either a torque or (near zero error) a direct
/// turn rate; the weapon fires only when converged and the caller's
/// range check passed.
pub fn steer(heading: i64, target_heading: i64, angular_vel_millirad: i64,
    gains: SteerGains, range_ok: bool) -> (cmd: SteerCommand)
    requires
        gains.wf(),
        -HEADING_LIMIT < heading < HEADING_LIMIT,
        -HEADING_LIMIT < target_heading < HEADING_LIMIT,
        -ANGULAR_VEL_LIMIT <= angular_vel_millirad <= ANGULAR_VEL_LIMIT,
    ensures
        ({
            let e = angle_diff_spec(heading as int, target_heading as int);
            match turn_mode_spec(e, gains.coarse_threshold as int, gains.fine_threshold as int) {
                TurnMode::Coarse => cmd == (SteerCommand {
                    actuation: Actuation::Torque(
                        angular_accel_spec(gains.coarse_gain as int, e,
                            angular_vel_millirad as int) as i64),
                    fire: false,
                }),
                TurnMode::Fine => cmd == (SteerCommand {
                    actuation: Actuation::Torque(
                        angular_accel_spec(gains.fine_gain as int, e,
                            angular_vel_millirad as int) as i64),
                    fire: false,
                }),
                TurnMode::FireEligible => cmd == (SteerCommand {
                    actuation: Actuation::TurnRate(
                        angular_accel_spec(gains.rate_gain as int, e,
                            angular_vel_millirad as int) as i64),
                    fire: range_ok,
                }),
            }
        }),
{
    let e = angle_diff(heading, target_heading);
    let mode = turn_mode(e, gains.coarse_threshold, gains.fine_threshold);
    match mode {
        TurnMode::Coarse => SteerCommand {
            actuation: Actuation::Torque(angular_accel(gains.coarse_gain, e,
                angular_vel_millirad)),
            fire: false,
        },
        TurnMode::Fine => SteerCommand {
            actuation: Actuation::Torque(angular_accel(gains.fine_gain, e,
                angular_vel_millirad)),
            fire: false,
        },
        TurnMode::FireEligible => SteerCommand {
            actuation: Actuation::TurnRate(angular_accel(gains.rate_gain, e,
                angular_vel_millirad)),
            fire: range_ok,
        },
    }
}

} // verus!
