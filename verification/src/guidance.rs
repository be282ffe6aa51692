//! The per-tick guidance loop: compose tracker, designation, engagement
//! state, intercept solver and maneuver rules into one decision step.
//!
//! The loop itself is a pure function from the host's observations
//! (sensor plot, own kinematics, fuel) to a plan of plain values.  The
//! host shell performs the plan — aiming the sensor, computing the
//! floating-point heading of the returned aim point, steering through
//! the angular controller, accelerating, firing or detonating — and
//! hands the next observation back.

use vstd::prelude::*;
use crate::vec2::Vec2I;
use crate::config::{Config, PLOT_POS_LIMIT, PLOT_VEL_LIMIT};
use crate::track::ScanPlot;
use crate::tracker::{Tracker, TICK_CAP, dist2};
use crate::engagement::{ShipState, SweepParams, Designation, is_tracked, next_state_spec,
    next_state, sweep_params_spec, sweep_params};
use crate::solver::{LeadPlan, plan_lead, lead_plan_ok, LEAD_POS_LIMIT, LEAD_VEL_LIMIT};
use crate::num::{div_t, abs_i, div_i128, sqrt_floor, lemma_sqrt_floor};

verus! {

/// What the host hands the guidance loop each tick: at most one sensor
/// plot, and the vehicle's own kinematic state in milli-units.
#[derive(Clone, Copy, Debug, PartialEq, Eq, Structural)]
pub struct Observation {
    pub plot: Option<ScanPlot>,
    pub own_position: Vec2I,
    pub own_velocity: Vec2I,
    /// Remaining fuel, milli-units; vehicles without fuel accounting
    /// pass a positive constant.
    pub fuel_milli: i64,
}

impl Observation {
    /// Host-supplied kinematics stay inside the arena bounds.
    pub open spec fn wf(self) -> bool {
        &&& -PLOT_POS_LIMIT <= self.own_position.x <= PLOT_POS_LIMIT
        &&& -PLOT_POS_LIMIT <= self.own_position.y <= PLOT_POS_LIMIT
        &&& -PLOT_VEL_LIMIT <= self.own_velocity.x <= PLOT_VEL_LIMIT
        &&& -PLOT_VEL_LIMIT <= self.own_velocity.y <= PLOT_VEL_LIMIT
        &&& self.plot matches Some(p) ==> p.wf()
    }
}

/// Everything the loop resolved about the designated target this tick.
#[derive(Clone, Copy, Debug, PartialEq, Eq, Structural)]
pub struct TargetSolution {
    /// Id of the designated track.
    pub target_id: u64,
    /// Relative position of the target, milli-units.
    pub relative_position: Vec2I,
    /// Relative velocity of the target, milli-units per second.
    pub relative_velocity: Vec2I,
    /// Squared distance to the target.
    pub distance2: i128,
    /// The aim point: intercept solution or linear-lead fallback.
    pub lead: LeadPlan,
}

/// One tick's plan: the derived state, the sensor sweep it selects, and
/// the resolved target solution if a target is designated.
#[derive(Clone, Copy, Debug, PartialEq, Eq, Structural)]
pub struct TickPlan {
    pub state: ShipState,
    pub sweep: SweepParams,
    pub target: Option<TargetSolution>,
}

/// The per-tick driver state: the tracker, the designation and the
/// engagement state of the previous tick.
pub struct GuidanceLoop {
    pub tracker: Tracker,
    pub designation: Designation,
    pub state: ShipState,
}

/// A designated target is in range when its squared distance is within
/// the configured target range; with no designated target the check
/// passes vacuously.
pub open spec fn target_in_range_spec(tr: Tracker, d: Designation, own: Vec2I) -> bool {
    match d.target_id {
        Some(id) => forall|i: int| 0 <= i < tr.tracks@.len() && #[trigger] tr.tracks@[i].id == id
            ==> dist2(tr.tracks@[i], own) <= tr.config.target_range * tr.config.target_range,
        None => true,
    }
}

impl GuidanceLoop {
    /// The loop invariant: a well-formed tracker.
    pub open spec fn wf(self) -> bool {
        self.tracker.wf()
    }

    /// A fresh guidance loop with no tracks, no designation and no
    /// target.
    pub fn new(config: Config) -> (g: GuidanceLoop)
        requires
            config.wf(),
        ensures
            g.wf(),
            g.tracker.tracks@.len() == 0,
            g.tracker.tick == 0,
            g.tracker.config == config,
            g.designation.target_id is None,
            g.state == ShipState::NoTarget,
    {
        GuidanceLoop {
            tracker: Tracker::new(config),
            designation: Designation::new(),
            state: ShipState::NoTarget,
        }
    }

    /// One tick: ingest the plot, update the designation under its
    /// hysteresis discipline, derive the engagement state, and resolve
    /// the designated target into an aim point.
    pub fn tick(&mut self, obs: &Observation) -> (plan: TickPlan)
        requires
            old(self).wf(),
            old(self).tracker.tick < TICK_CAP,
            obs.wf(),
        ensures
            final(self).wf(),
            Tracker::ingest_post(old(self).tracker, obs.plot, final(self).tracker),
            // Hysteresis: a live designation with sticky ticks left is
            // held, however close another track may be.
            old(self).designation.target_id is Some
                && is_tracked(final(self).tracker, old(self).designation.target_id.unwrap())
                && old(self).designation.sticky_ticks_left > 0
                ==> final(self).designation.target_id == old(self).designation.target_id
                    && final(self).designation.sticky_ticks_left
                        == old(self).designation.sticky_ticks_left - 1,
            // An expired hold is re-acquired from the nearest query.
            old(self).designation.target_id is Some
                && is_tracked(final(self).tracker, old(self).designation.target_id.unwrap())
                && old(self).designation.sticky_ticks_left == 0
                ==> final(self).tracker.nearest_ok(obs.own_position,
                        final(self).designation.target_id)
                    && final(self).designation.sticky_ticks_left
                        == final(self).tracker.config.sticky_ticks,
            // A destroyed or absent designation is re-acquired
            // immediately, bypassing hysteresis.
            (match old(self).designation.target_id {
                Some(id) => !is_tracked(final(self).tracker, id),
                None => true,
            }) ==> final(self).tracker.nearest_ok(obs.own_position,
                    final(self).designation.target_id)
                && final(self).designation.sticky_ticks_left
                    == final(self).tracker.config.sticky_ticks,
            // The engagement state is re-derived from this tick's facts.
            final(self).state == next_state_spec(final(self).tracker.tracks@.len() > 0,
                final(self).tracker.ticks_since_contact,
                final(self).tracker.config.recency_threshold,
                target_in_range_spec(final(self).tracker, final(self).designation,
                    obs.own_position)),
            plan.state == final(self).state,
            plan.sweep == sweep_params_spec(plan.state),
            // The target solution follows the designation exactly.
            plan.target is Some <==> final(self).designation.target_id is Some,
            plan.target matches Some(sol) ==> {
                let id = sol.target_id;
                &&& Some(id) == final(self).designation.target_id
                &&& exists|i: int| 0 <= i < final(self).tracker.tracks@.len()
                    && #[trigger] final(self).tracker.tracks@[i].id == id
                    && sol.relative_position.x == final(self).tracker.tracks@[i].position.x
                        - obs.own_position.x
                    && sol.relative_position.y == final(self).tracker.tracks@[i].position.y
                        - obs.own_position.y
                    && sol.relative_velocity.x == final(self).tracker.tracks@[i].velocity.x
                        - obs.own_velocity.x
                    && sol.relative_velocity.y == final(self).tracker.tracks@[i].velocity.y
                        - obs.own_velocity.y
                    && sol.distance2 == dist2(final(self).tracker.tracks@[i], obs.own_position)
                &&& lead_plan_ok(sol.relative_position, sol.relative_velocity,
                    final(self).tracker.config.bullet_speed as int,
                    final(self).tracker.config.ticks_per_second as int, sol.lead)
            },
    {
        self.tracker.ingest(obs.plot);
        self.designation.update(&self.tracker, obs.own_position);

        let target = match self.designation.target_id {
            None => None,
            Some(id) => {
                let found = self.tracker.get(id);
                match found {
                    Err(_) => {
                        proof {
                            assert(is_tracked(self.tracker, id));
                            let i = choose|i: int| 0 <= i < self.tracker.tracks@.len()
                                && self.tracker.tracks@[i].id == id;
                            assert(self.tracker.tracks@[i].id != id);
                        }
                        None
                    },
                    Ok(t) => {
                        proof {
                            let i = choose|i: int| 0 <= i < self.tracker.tracks@.len()
                                && #[trigger] self.tracker.tracks@[i] == t && t.id == id;
                            assert(self.tracker.track_ok(i));
                            t.lemma_wf_pos_bound(self.tracker.tick, self.tracker.config);
                        }
                        let rel_p = Vec2I {
                            x: t.position.x - obs.own_position.x,
                            y: t.position.y - obs.own_position.y,
                        };
                        let rel_v = Vec2I {
                            x: t.velocity.x - obs.own_velocity.x,
                            y: t.velocity.y - obs.own_velocity.y,
                        };
                        let d2 = rel_p.norm2();
                        let lead = plan_lead(rel_p, rel_v, self.tracker.config.bullet_speed,
                            self.tracker.config.ticks_per_second);
                        Some(TargetSolution {
                            target_id: id,
                            relative_position: rel_p,
                            relative_velocity: rel_v,
                            distance2: d2,
                            lead,
                        })
                    },
                }
            },
        };

        let in_range = match target {
            None => true,
            Some(sol) => {
                let range = self.tracker.config.target_range;
                proof {
                    assert(0 <= (range as int) * (range as int)
                        <= 1_000_000_000_000_000_000) by (nonlinear_arith)
                        requires
                            0 < range <= 1_000_000_000,
                    ;
                }
                let ok = sol.distance2 <= (range as i128) * (range as i128);
                proof {
                    lemma_in_range_all(self.tracker, sol.target_id, obs.own_position,
                        sol.distance2, (range * range) as int);
                }
                ok
            },
        };

        let has = self.tracker.has_contacts();
        self.state = next_state(has, self.tracker.ticks_since_contact,
            self.tracker.config.recency_threshold, in_range);
        let sweep = sweep_params(self.state);
        TickPlan { state: self.state, sweep, target }
    }
}

/// A proximity-fuse decision: detonate when the target is inside the
/// fuse radius, or when the fuel is spent (a dud otherwise drifts
/// forever).
pub open spec fn detonate_spec(distance2: int, fuel_milli: int, fuse_radius: int) -> bool {
    distance2 < fuse_radius * fuse_radius || fuel_milli <= 0
}

/// Should a self-guided munition detonate this tick?
pub fn should_detonate(distance2: i128, fuel_milli: i64, fuse_radius: i64) -> (r: bool)
    requires
        0 <= fuse_radius <= 1_000_000_000,
    ensures
        r == detonate_spec(distance2 as int, fuel_milli as int, fuse_radius as int),
{
    proof {
        assert(0 <= (fuse_radius as int) * (fuse_radius as int)
            <= 1_000_000_000_000_000_000) by (nonlinear_arith)
            requires
                0 <= fuse_radius <= 1_000_000_000,
        ;
    }
    distance2 < (fuse_radius as i128) * (fuse_radius as i128) || fuel_milli <= 0
}

/// The maneuvering decision against the designated target.  The bands
/// are deliberately open: a distance exactly on a band edge holds the
/// current motion.
#[derive(Clone, Copy, Debug, PartialEq, Eq, Structural)]
pub enum ManeuverAction {
    /// Close range, target opening: drift toward it.
    FloatToward,
    /// Close range, target closing: drift away.
    FloatAway,
    /// Combat range: match the contact's motion.
    MatchVelocity,
    /// Long range: accelerate back into combat range.
    CloseIn,
    /// Stopping takes longer than intercepting: brake.
    Brake,
    /// On a band edge: leave the throttle alone.
    Hold,
}

/// Close-range band edge, milli-units (500 length units).
pub const MANEUVER_NEAR_BAND: i64 = 500_000;

/// Combat-range band edge, milli-units (1000 length units).
pub const MANEUVER_FAR_BAND: i64 = 1_000_000;

/// The maneuver rule: brake when stopping takes at least as long as
/// intercepting; otherwise pick by distance band.
pub open spec fn maneuver_spec(distance2: int, distance_increasing: bool,
    time_to_stop_millis: int, time_to_intercept_millis: int) -> ManeuverAction {
    if time_to_stop_millis < time_to_intercept_millis {
        if distance2 < MANEUVER_NEAR_BAND * MANEUVER_NEAR_BAND {
            if distance_increasing {
                ManeuverAction::FloatToward
            } else {
                ManeuverAction::FloatAway
            }
        } else if MANEUVER_NEAR_BAND * MANEUVER_NEAR_BAND < distance2
            && distance2 < MANEUVER_FAR_BAND * MANEUVER_FAR_BAND {
            ManeuverAction::MatchVelocity
        } else if distance2 > MANEUVER_FAR_BAND * MANEUVER_FAR_BAND {
            ManeuverAction::CloseIn
        } else {
            ManeuverAction::Hold
        }
    } else {
        ManeuverAction::Brake
    }
}

/// Pick this tick's maneuver toward the designated target.
pub fn maneuver_decision(distance2: i128, distance_increasing: bool,
    time_to_stop_millis: i64, time_to_intercept_millis: i64) -> (a: ManeuverAction)
    ensures
        a == maneuver_spec(distance2 as int, distance_increasing,
            time_to_stop_millis as int, time_to_intercept_millis as int),
{
    if time_to_stop_millis < time_to_intercept_millis {
        let near2: i128 = (MANEUVER_NEAR_BAND as i128) * (MANEUVER_NEAR_BAND as i128);
        let far2: i128 = (MANEUVER_FAR_BAND as i128) * (MANEUVER_FAR_BAND as i128);
        if distance2 < near2 {
            if distance_increasing {
                ManeuverAction::FloatToward
            } else {
                ManeuverAction::FloatAway
            }
        } else if near2 < distance2 && distance2 < far2 {
            ManeuverAction::MatchVelocity
        } else if distance2 > far2 {
            ManeuverAction::CloseIn
        } else {
            ManeuverAction::Hold
        }
    } else {
        ManeuverAction::Brake
    }
}

/// The two scalars of the proportional-navigation seeker, computed from
/// relative position `dp` and relative velocity `dv`.
#[derive(Clone, Copy, Debug, PartialEq, Eq, Structural)]
pub struct SeekTerms {
    /// Closing speed along the line of sight, milli-units per second
    /// (negative of the folded radial rate).
    pub closing_speed: i128,
    /// Line-of-sight rotation rate, micro-radians per second.
    pub los_rate_micro: i128,
}

/// The closing-speed scalar: `-|dp.y dv.y - dp.x dv.x| / |dp|`.
pub open spec fn closing_speed_spec(dp: Vec2I, dv: Vec2I) -> int {
    div_t(-abs_i(dp.y * dv.y - dp.x * dv.x), sqrt_floor(dp.spec_norm2() as nat) as int)
}

/// The line-of-sight rate: `(dp.y dv.x - dp.x dv.y) / |dp|^2`, scaled to
/// micro-radians per second.
pub open spec fn los_rate_micro_spec(dp: Vec2I, dv: Vec2I) -> int {
    div_t(1_000_000 * (dp.y * dv.x - dp.x * dv.y), dp.spec_norm2())
}

/// Compute the seeker scalars for a non-degenerate geometry.
pub fn seek_terms(dp: Vec2I, dv: Vec2I) -> (r: SeekTerms)
    requires
        -LEAD_POS_LIMIT <= dp.x <= LEAD_POS_LIMIT,
        -LEAD_POS_LIMIT <= dp.y <= LEAD_POS_LIMIT,
        -LEAD_VEL_LIMIT <= dv.x <= LEAD_VEL_LIMIT,
        -LEAD_VEL_LIMIT <= dv.y <= LEAD_VEL_LIMIT,
        dp.spec_norm2() > 0,
    ensures
        r.closing_speed == closing_speed_spec(dp, dv),
        r.los_rate_micro == los_rate_micro_spec(dp, dv),
{
    proof {
        crate::vec2::lemma_sum_product_bound(dp.y as int, -(dp.x as int), dv.y as int,
            dv.x as int, LEAD_POS_LIMIT as int, LEAD_VEL_LIMIT as int);
        crate::vec2::lemma_sum_product_bound(dp.y as int, -(dp.x as int), dv.x as int,
            dv.y as int, LEAD_POS_LIMIT as int, LEAD_VEL_LIMIT as int);
        crate::vec2::lemma_sum_product_bound(dp.x as int, dp.y as int, dp.x as int,
            dp.y as int, LEAD_POS_LIMIT as int, LEAD_POS_LIMIT as int);
        crate::vec2::lemma_product_bound(dp.y as int, dv.y as int, LEAD_POS_LIMIT as int);
        crate::vec2::lemma_product_bound(dp.x as int, dv.x as int, LEAD_POS_LIMIT as int);
        crate::vec2::lemma_product_bound(dp.y as int, dv.x as int, LEAD_POS_LIMIT as int);
        crate::vec2::lemma_product_bound(dp.x as int, dv.y as int, LEAD_POS_LIMIT as int);
    }
    let radial: i128 = (dp.y as i128) * (dv.y as i128) - (dp.x as i128) * (dv.x as i128);
    let cross: i128 = (dp.y as i128) * (dv.x as i128) - (dp.x as i128) * (dv.y as i128);
    let n2: i128 = dp.norm2();
    let len = dp.len_floor();
    proof {
        lemma_sqrt_floor(n2 as nat);
        assert(len >= 1) by {
            if len == 0 {
                assert((0 + 1) * (0 + 1) == 1);
            }
        }
    }
    let mag: i128 = if radial >= 0 {
        radial
    } else {
        -radial
    };
    let closing = div_i128(-mag, len as i128);
    let los = div_i128(1_000_000 * cross, n2);
    SeekTerms { closing_speed: closing, los_rate_micro: los }
}

/// All tracks carrying one id agree on their distance check: ids are
/// unique in a well-formed tracker.
proof fn lemma_in_range_all(tr: Tracker, id: u64, own: Vec2I, d2: i128, r2: int)
    requires
        tr.wf(),
        exists|i: int| 0 <= i < tr.tracks@.len() && #[trigger] tr.tracks@[i].id == id
            && d2 == dist2(tr.tracks@[i], own),
    ensures
        (d2 <= r2) == (forall|i: int| 0 <= i < tr.tracks@.len()
            && #[trigger] tr.tracks@[i].id == id ==> dist2(tr.tracks@[i], own) <= r2),
{
    let i = choose|i: int| 0 <= i < tr.tracks@.len() && #[trigger] tr.tracks@[i].id == id
        && d2 == dist2(tr.tracks@[i], own);
    if d2 <= r2 {
        assert forall|j: int| 0 <= j < tr.tracks@.len() && #[trigger] tr.tracks@[j].id == id
            implies dist2(tr.tracks@[j], own) <= r2 by {
            if j != i {
                assert(tr.tracks@[i].id != tr.tracks@[j].id);
            }
        }
    }
}

} // verus!
