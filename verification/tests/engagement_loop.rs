//! The angular controller, the engagement state machine, designation
//! hysteresis and the per-tick guidance loop.

use intercept::config::Config;
use intercept::controller::{angular_accel, turn_mode, steer, snap_throttle, TurnMode,
    Actuation, SteerGains};
use intercept::engagement::{next_state, sweep_params, focused_sweep, ShipState, Designation};
use intercept::guidance::{GuidanceLoop, Observation, ManeuverAction, maneuver_decision,
    should_detonate, seek_terms};
use intercept::track::ScanPlot;
use intercept::tracker::Tracker;
use intercept::vec2::Vec2I;

fn plot_at(x: i64, y: i64, vx: i64, vy: i64, tick: u64) -> ScanPlot {
    ScanPlot {
        position: Vec2I::new(x, y),
        velocity: Vec2I::new(vx, vy),
        rssi: 0,
        snr: 0,
        tick,
    }
}

#[test]
fn controller_exactness() {
    // k=50, e=0.2 rad, w=0: accel = 50*0.2 - 2*sqrt(50)*0 = 10.0 rad/s^2.
    assert_eq!(angular_accel(50, 200, 0), 10_000);
    // e=0, w=0: accel = 0 for all k.
    assert_eq!(angular_accel(1, 0, 0), 0);
    assert_eq!(angular_accel(50, 0, 0), 0);
    assert_eq!(angular_accel(1_000, 0, 0), 0);
    assert_eq!(angular_accel(1_000_000, 0, 0), 0);
}

#[test]
fn controller_damping_term() {
    // k=50: sqrt(50e6) = 7071 milli; w = 1 rad/s damps by 14.142 rad/s^2.
    assert_eq!(angular_accel(50, 0, 1000), -14_142);
    // A perfect square gain is exact: k = 100, sqrt = 10.
    assert_eq!(angular_accel(100, 100, 1000), 100 * 100 - 2 * 10_000);
}

#[test]
fn turn_modes() {
    assert_eq!(turn_mode(500, 100, 10), TurnMode::Coarse);
    assert_eq!(turn_mode(-500, 100, 10), TurnMode::Coarse);
    assert_eq!(turn_mode(100, 100, 10), TurnMode::Fine);
    assert_eq!(turn_mode(-50, 100, 10), TurnMode::Fine);
    assert_eq!(turn_mode(10, 100, 10), TurnMode::FireEligible);
    assert_eq!(turn_mode(0, 100, 10), TurnMode::FireEligible);
}

#[test]
fn steer_fires_only_converged_and_in_range() {
    let gains = SteerGains {
        coarse_gain: 50,
        fine_gain: 1000,
        rate_gain: 50_000,
        coarse_threshold: 100,
        fine_threshold: 10,
    };
    // Large error: coarse torque, no fire.
    let c = steer(0, 1000, 0, gains, true);
    assert!(matches!(c.actuation, Actuation::Torque(_)));
    assert!(!c.fire);
    // Converged and in range: rate command and fire.
    let f = steer(0, 5, 0, gains, true);
    assert!(matches!(f.actuation, Actuation::TurnRate(_)));
    assert!(f.fire);
    // Converged but out of range: hold fire.
    let h = steer(0, 5, 0, gains, false);
    assert!(!h.fire);
}

#[test]
fn state_transitions() {
    // A contact this tick forces engagement.
    assert_eq!(next_state(true, 0, 30, true), ShipState::Engaged);
    // The explicit range check forces the out-of-range state.
    assert_eq!(next_state(true, 0, 30, false), ShipState::OutOfTargetRange);
    // A stale recency counter forces the maximum-range sweep.
    assert_eq!(next_state(false, 31, 30, true), ShipState::OutOfRadarRange);
    // The boundary itself still searches.
    assert_eq!(next_state(false, 30, 30, true), ShipState::Searching);
    assert_eq!(next_state(false, 0, 30, true), ShipState::Searching);
}

#[test]
fn sweep_parameters_narrow_when_engaged() {
    let engaged = sweep_params(ShipState::Engaged);
    let searching = sweep_params(ShipState::Searching);
    let quiet = sweep_params(ShipState::OutOfRadarRange);
    assert!(engaged.beam_width < searching.beam_width);
    assert!(searching.beam_width < quiet.beam_width);
    assert!(engaged.max_range < searching.max_range);
    assert!(searching.max_range < quiet.max_range);
    assert_eq!(engaged.beam_width, 393);
    assert_eq!(searching.beam_width, 785);
    assert_eq!(quiet.beam_width, 1570);
    assert_eq!(quiet.max_range, 1_000_000_000);
}

#[test]
fn hysteresis_holds_designation() {
    // Designating track A, then having a strictly closer track B
    // appear, must not replace A until the sticky counter reaches zero.
    let mut tr = Tracker::new(Config::standard());
    tr.ingest(Some(plot_at(10_000_000, 0, 0, 0, 1))); // A: id 0, far
    tr.ingest(Some(plot_at(1_000_000, 0, 0, 0, 2))); // B: id 1, close
    assert_eq!(tr.nearest(Vec2I::new(0, 0)), Some(1));

    let mut d = Designation {
        target_id: Some(0),
        sticky_ticks_left: 2,
    };
    d.update(&tr, Vec2I::new(0, 0));
    assert_eq!(d.target_id, Some(0));
    assert_eq!(d.sticky_ticks_left, 1);
    d.update(&tr, Vec2I::new(0, 0));
    assert_eq!(d.target_id, Some(0));
    assert_eq!(d.sticky_ticks_left, 0);
    // Counter expired: the closer track may now take over.
    d.update(&tr, Vec2I::new(0, 0));
    assert_eq!(d.target_id, Some(1));
    assert_eq!(d.sticky_ticks_left, 1);
}

#[test]
fn stale_designation_reacquires_immediately() {
    let mut tr = Tracker::new(Config::standard());
    tr.ingest(Some(plot_at(1_000_000, 0, 0, 0, 1)));
    // The designated id is gone: hysteresis is bypassed.
    let mut d = Designation {
        target_id: Some(42),
        sticky_ticks_left: 100,
    };
    d.update(&tr, Vec2I::new(0, 0));
    assert_eq!(d.target_id, Some(0));
    assert_eq!(d.sticky_ticks_left, 1);
}

#[test]
fn empty_tracker_clears_designation() {
    let tr = Tracker::new(Config::standard());
    let mut d = Designation {
        target_id: Some(3),
        sticky_ticks_left: 5,
    };
    d.update(&tr, Vec2I::new(0, 0));
    assert_eq!(d.target_id, None);
}

#[test]
fn guidance_loop_engages_contact() {
    let mut g = GuidanceLoop::new(Config::standard());
    let obs = Observation {
        plot: Some(plot_at(1_000_000, 0, 0, 100_000, 1)),
        own_position: Vec2I::new(0, 0),
        own_velocity: Vec2I::new(0, 0),
        fuel_milli: 1_000_000,
    };
    let plan = g.tick(&obs);
    assert_eq!(plan.state, ShipState::Engaged);
    assert_eq!(plan.sweep.beam_width, 393);
    let sol = plan.target.expect("a contact designates a target");
    assert_eq!(sol.target_id, 0);
    assert_eq!(sol.relative_position, Vec2I::new(1_000_000, 0));
    assert_eq!(sol.relative_velocity, Vec2I::new(0, 100_000));
    assert_eq!(sol.distance2, 1_000_000i128 * 1_000_000);
}

#[test]
fn guidance_loop_goes_quiet_without_contacts() {
    let mut g = GuidanceLoop::new(Config::standard());
    let obs = Observation {
        plot: None,
        own_position: Vec2I::new(0, 0),
        own_velocity: Vec2I::new(0, 0),
        fuel_milli: 1_000_000,
    };
    for _ in 0..30 {
        let plan = g.tick(&obs);
        assert_eq!(plan.state, ShipState::Searching);
        assert!(plan.target.is_none());
    }
    // The 31st quiet tick crosses the recency threshold.
    let plan = g.tick(&obs);
    assert_eq!(plan.state, ShipState::OutOfRadarRange);
    assert_eq!(plan.sweep.max_range, 1_000_000_000);
}

#[test]
fn maneuver_bands() {
    let near2 = 400_000i128 * 400_000;
    let mid2 = 700_000i128 * 700_000;
    let far2 = 2_000_000i128 * 2_000_000;
    assert_eq!(maneuver_decision(near2, true, 0, 100), ManeuverAction::FloatToward);
    assert_eq!(maneuver_decision(near2, false, 0, 100), ManeuverAction::FloatAway);
    assert_eq!(maneuver_decision(mid2, false, 0, 100), ManeuverAction::MatchVelocity);
    assert_eq!(maneuver_decision(far2, false, 0, 100), ManeuverAction::CloseIn);
    // Exactly on a band edge: hold.
    assert_eq!(
        maneuver_decision(500_000i128 * 500_000, false, 0, 100),
        ManeuverAction::Hold
    );
    // Stopping takes at least as long as intercepting: brake.
    assert_eq!(maneuver_decision(far2, false, 100, 100), ManeuverAction::Brake);
}

#[test]
fn proximity_fuse() {
    // 15-unit fuse radius, in milli-units.
    assert!(should_detonate(14_999i128 * 14_999, 1_000, 15_000));
    assert!(!should_detonate(15_000i128 * 15_000, 1_000, 15_000));
    // Out of fuel: dud detonation regardless of distance.
    assert!(should_detonate(1_000_000_000_000, 0, 15_000));
    assert!(should_detonate(1_000_000_000_000, -5, 15_000));
}

#[test]
fn seeker_terms() {
    // Target one unit ahead on x, drifting across at 0.1 unit/s: the
    // line of sight rotates at 0.1 rad/s and nothing closes radially.
    let terms = seek_terms(Vec2I::new(1_000, 0), Vec2I::new(0, 100));
    assert_eq!(terms.closing_speed, 0);
    assert_eq!(terms.los_rate_micro, -100_000);
}

#[test]
fn snap_throttle_bang_bang() {
    // 1 radian to go, standing still, 60 rad/s^2 available: keep
    // accelerating toward the mark.
    assert_eq!(snap_throttle(1000, 0, 60_000, 60), 1);
    assert_eq!(snap_throttle(-1000, 0, 60_000, 60), -1);
    // Already spinning fast enough that stopping takes as long as
    // arriving: counter-torque.
    assert_eq!(snap_throttle(1000, 120_000, 60_000, 60), -1);
    assert_eq!(snap_throttle(-1000, 120_000, 60_000, 60), 1);
}

#[test]
fn focused_sweep_window() {
    // 1000 units out: beam pi/9 (512 <= 1000 < 1024), window 70%..110%.
    let s = focused_sweep(1_000_000);
    assert_eq!(s.beam_width, 3141 / 9);
    assert_eq!(s.min_range, 700_000);
    assert_eq!(s.max_range, 1_100_000);
    assert_eq!(s.heading_step, 0);
}
