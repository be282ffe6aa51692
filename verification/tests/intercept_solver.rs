//! The intercept solver: closed-form exactness, agreement with the
//! iterative cross-check, and the failure path with its linear-lead
//! fallback.

use intercept::solver::{intercept_time_millis, iterative_time_millis, aim_from_time,
    linear_lead, plan_lead, LeadPlan};
use intercept::vec2::Vec2I;

#[test]
fn solver_exactness_stationary_target() {
    // Target at rest at (1000, 0) units, projectile at 1000 units/s:
    // t = 1.0 s, aim point = (1000, 0).
    let p = Vec2I::new(1_000_000, 0);
    let v = Vec2I::new(0, 0);
    let t = intercept_time_millis(p, v, 1_000_000);
    assert_eq!(t, 1000);
    let aim = aim_from_time(p, v, t);
    assert_eq!(aim.x, 1_000_000);
    assert_eq!(aim.y, 0);
}

#[test]
fn solver_agreement_crossing_target() {
    // Target at (1000, 0) units moving (0, 100) units/s, projectile at
    // 1000 units/s: closed form and fixed-point iteration agree to the
    // model's milli-second resolution.
    let p = Vec2I::new(1_000_000, 0);
    let v = Vec2I::new(0, 100_000);
    let closed = intercept_time_millis(p, v, 1_000_000);
    let iterated = iterative_time_millis(p, v, 1_000_000);
    assert!(closed > 0);
    assert!(iterated > 0);
    assert!((closed - iterated).abs() <= 1);
    assert_eq!(closed, 1005);
    assert_eq!(iterated, 1005);
}

#[test]
fn solver_failure_negative_discriminant() {
    // A target crossing faster than the projectile: discriminant < 0,
    // and the sentinel comes back — never a panic.
    let p = Vec2I::new(1_000_000, 0);
    let v = Vec2I::new(0, 2_000_000);
    let t = intercept_time_millis(p, v, 1_000_000);
    assert_eq!(t, -1);
}

#[test]
fn solver_failure_no_positive_root() {
    // A target outrunning the projectile along the line of sight: both
    // roots negative, sentinel returned.
    let p = Vec2I::new(1_000_000, 0);
    let v = Vec2I::new(2_000_000, 0);
    let t = intercept_time_millis(p, v, 1_000_000);
    assert_eq!(t, -1);
}

#[test]
fn failure_falls_back_to_linear_lead() {
    // On solver failure the caller's plan is the first-order linear
    // lead, not the target's current position.
    let p = Vec2I::new(1_000_000, 0);
    let v = Vec2I::new(0, 2_000_000);
    match plan_lead(p, v, 1_000_000, 60) {
        LeadPlan::LinearLead(aim) => {
            // v/60 = (0, 33_333); |p| = 1_000_000; ceil(1e6/60) = 16_667.
            assert_eq!(aim.x, 1_000_000);
            assert_eq!(aim.y, 33_333i128 * 1_000_000 / 16_667);
            assert_ne!((aim.x, aim.y), (1_000_000, 0));
        }
        LeadPlan::Intercept(_) => panic!("expected the linear-lead fallback"),
    }
}

#[test]
fn solvable_geometry_uses_intercept() {
    let p = Vec2I::new(1_000_000, 0);
    let v = Vec2I::new(0, 100_000);
    match plan_lead(p, v, 1_000_000, 60) {
        LeadPlan::Intercept(aim) => {
            // t = 1005 ms: aim = p + t*v/1000.
            assert_eq!(aim.x, 1_000_000);
            assert_eq!(aim.y, 1005 * 100_000 / 1000);
        }
        LeadPlan::LinearLead(_) => panic!("expected a closed-form intercept"),
    }
}

#[test]
fn linear_lead_formula() {
    // lead = p + (v/tps) * |p| / ceil(speed/tps).
    let p = Vec2I::new(3_000_000, 4_000_000);
    let v = Vec2I::new(-600_000, 0);
    let aim = linear_lead(p, v, 1_000_000, 60);
    // |p| = 5_000_000, v/60 = (-10_000, 0), s_pt = 16_667.
    assert_eq!(aim.x, 3_000_000 + (-10_000i128) * 5_000_000 / 16_667);
    assert_eq!(aim.y, 4_000_000);
}

#[test]
fn head_on_target_meets_halfway() {
    // Closing head-on at projectile speed: met at half the range in
    // half the one-way time.
    let p = Vec2I::new(1_000_000, 0);
    let v = Vec2I::new(-1_000_000, 0);
    let t = intercept_time_millis(p, v, 1_000_000);
    assert_eq!(t, 500);
    let aim = aim_from_time(p, v, t);
    assert_eq!(aim.x, 500_000);
    assert_eq!(aim.y, 0);
}
