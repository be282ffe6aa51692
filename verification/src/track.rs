//! Per-target state: the position/velocity estimate built from
//! intermittent sensor plots, its classification, its association gate,
//! its staleness bookkeeping and its pending-plot slot.
//!
//! The update rule, applied once per tick, is exactly:
//! - no plot queued: coast, `position += velocity / ticks_per_second`;
//! - one plot queued: a one-step differencing smoother —
//!   `accel = (velocity/tps - plot_velocity/tps) / 2` (per-tick units),
//!   `velocity = (velocity/tps + accel) * tps`, `position += accel`;
//! - afterwards its association window is recentered on the new position
//!   unconditionally.
//!
//! All divisions truncate toward zero (`div_t`).

use vstd::prelude::*;
use crate::vec2::Vec2I;
use crate::gate::TrackGate;
use crate::config::{Config, PLOT_POS_LIMIT, PLOT_VEL_LIMIT};
use crate::num::{div_t, div_i64, abs_i, lemma_div_t_abs};

verus! {

/// Velocity components of a live track never exceed this (proved as part
/// of the tracker invariant: a faster estimate could not keep matching
/// plots inside its gate).
pub const TRACK_VEL_CAP: i64 = 10_000_000_000_000;

/// Bound on `|position - age * coast_step|`: how far from the origin a
/// track's position was when it last matched a plot (arena size plus
/// gate and smoothing slack).
pub const TRACK_ANCHOR_BOUND: i64 = 5_000_000_000;

/// Position components of a live track never exceed this.
pub const TRACK_POS_CAP: i64 = 7_000_000_000_000_000;

/// Largest ticks-since-contact a well-formed track can carry (the
/// staleness limit plus one transient tick inside an ingest).
pub const TRACK_AGE_CAP: u64 = 601;

/// Classification applied to a track.
#[derive(Clone, Copy, Debug, PartialEq, Eq, Structural)]
pub enum TrackClass {
    Tentative,
    Friend,
    Foe,
    Munition,
}

/// One instantaneous sensor measurement: reported position and velocity,
/// signal-quality metadata and the tick it was taken on.  Transient — it
/// is consumed into a track or spawns one.
#[derive(Clone, Copy, Debug, PartialEq, Eq, Structural)]
pub struct ScanPlot {
    pub position: Vec2I,
    pub velocity: Vec2I,
    /// Received signal strength, milli-dB.
    pub rssi: i64,
    /// Signal-to-noise ratio, milli-dB.
    pub snr: i64,
    /// Tick the measurement was taken on.
    pub tick: u64,
}

impl ScanPlot {
    /// Plots come from the host sensor, whose arena and speeds are
    /// bounded.
    pub open spec fn wf(self) -> bool {
        &&& -PLOT_POS_LIMIT <= self.position.x <= PLOT_POS_LIMIT
        &&& -PLOT_POS_LIMIT <= self.position.y <= PLOT_POS_LIMIT
        &&& -PLOT_VEL_LIMIT <= self.velocity.x <= PLOT_VEL_LIMIT
        &&& -PLOT_VEL_LIMIT <= self.velocity.y <= PLOT_VEL_LIMIT
    }
}

/// Persistent kinematic estimate of one other agent.
#[derive(Clone, Copy, Debug, PartialEq, Eq, Structural)]
pub struct Track {
    /// Unique, monotonically assigned, never reused.
    pub id: u64,
    /// Resolved position estimate, milli-units.
    pub position: Vec2I,
    /// Resolved velocity estimate, milli-units per second.
    pub velocity: Vec2I,
    /// Classification of the contact.
    pub class: TrackClass,
    /// Association window, recentered on `position` every tick.
    pub gate: TrackGate,
    /// Tick of the last matched plot.
    pub last_contact_tick: u64,
    /// At most one plot is queued per tick.
    pub pending_plot: Option<ScanPlot>,
}

impl Track {
    /// Ticks since this track last matched a plot, as of `now`.
    pub open spec fn age_at(self, now: u64) -> int {
        now - self.last_contact_tick
    }

    /// The coast step of one component: velocity over tick rate,
    /// truncated.
    pub open spec fn step_x(self, cfg: Config) -> int {
        div_t(self.velocity.x as int, cfg.ticks_per_second as int)
    }

    /// The coast step of the y component.
    pub open spec fn step_y(self, cfg: Config) -> int {
        div_t(self.velocity.y as int, cfg.ticks_per_second as int)
    }

    /// Well-formedness of a live track at tick `now`: a bounded age and
    /// velocity, a position that has drifted from an in-arena anchor by
    /// exactly `age` coast steps, and a gate centered on the position.
    pub open spec fn wf_at(self, now: u64, cfg: Config) -> bool {
        &&& self.last_contact_tick <= now
        &&& self.age_at(now) <= TRACK_AGE_CAP
        &&& abs_i(self.velocity.x as int) <= TRACK_VEL_CAP
        &&& abs_i(self.velocity.y as int) <= TRACK_VEL_CAP
        &&& abs_i(self.position.x - self.age_at(now) * self.step_x(cfg)) <= TRACK_ANCHOR_BOUND
        &&& abs_i(self.position.y - self.age_at(now) * self.step_y(cfg)) <= TRACK_ANCHOR_BOUND
        &&& self.gate.center == self.position
        &&& self.gate.radius == cfg.gate_radius
    }

    /// A well-formed track's position is bounded by `TRACK_POS_CAP`.
    pub proof fn lemma_wf_pos_bound(self, now: u64, cfg: Config)
        requires
            self.wf_at(now, cfg),
            cfg.wf(),
        ensures
            abs_i(self.position.x as int) <= TRACK_POS_CAP,
            abs_i(self.position.y as int) <= TRACK_POS_CAP,
    {
        lemma_div_t_abs(self.velocity.x as int, cfg.ticks_per_second as int);
        lemma_div_t_abs(self.velocity.y as int, cfg.ticks_per_second as int);
        let d = self.age_at(now);
        assert(abs_i(d * self.step_x(cfg)) <= TRACK_AGE_CAP * TRACK_VEL_CAP)
            by (nonlinear_arith)
            requires
                0 <= d <= TRACK_AGE_CAP,
                abs_i(self.step_x(cfg)) <= TRACK_VEL_CAP,
        ;
        assert(abs_i(d * self.step_y(cfg)) <= TRACK_AGE_CAP * TRACK_VEL_CAP)
            by (nonlinear_arith)
            requires
                0 <= d <= TRACK_AGE_CAP,
                abs_i(self.step_y(cfg)) <= TRACK_VEL_CAP,
        ;
    }

    /// Euclidean distance (floor, milli-units) from this track's
    /// position estimate to `point`.
    pub fn distance_from(&self, point: Vec2I) -> (d: i64)
        requires
            abs_i(self.position.x as int) <= TRACK_POS_CAP,
            abs_i(self.position.y as int) <= TRACK_POS_CAP,
            abs_i(point.x as int) <= TRACK_POS_CAP,
            abs_i(point.y as int) <= TRACK_POS_CAP,
        ensures
            d == crate::num::sqrt_floor(
                ((self.position.x - point.x) * (self.position.x - point.x)
                    + (self.position.y - point.y) * (self.position.y - point.y)) as nat),
            d >= 0,
    {
        let diff = Vec2I {
            x: self.position.x - point.x,
            y: self.position.y - point.y,
        };
        diff.len_floor()
    }

    /// Direction to this track from `point`, as a displacement vector.
    pub fn get_target_direction(&self, point: Vec2I) -> (r: Vec2I)
        requires
            abs_i(self.position.x as int) <= TRACK_POS_CAP,
            abs_i(self.position.y as int) <= TRACK_POS_CAP,
            abs_i(point.x as int) <= TRACK_POS_CAP,
            abs_i(point.y as int) <= TRACK_POS_CAP,
        ensures
            r.x == self.position.x - point.x,
            r.y == self.position.y - point.y,
    {
        Vec2I { x: self.position.x - point.x, y: self.position.y - point.y }
    }

    /// Closing speed toward this track (milli-units per second,
    /// positive when closing): the negated component of the relative
    /// velocity along the line of sight.
    pub fn closing_speed(&self, own_position: Vec2I, own_velocity: Vec2I) -> (r: i128)
        requires
            abs_i(self.position.x as int) <= TRACK_POS_CAP,
            abs_i(self.position.y as int) <= TRACK_POS_CAP,
            abs_i(own_position.x as int) <= TRACK_POS_CAP,
            abs_i(own_position.y as int) <= TRACK_POS_CAP,
            abs_i(self.velocity.x as int) <= TRACK_VEL_CAP,
            abs_i(self.velocity.y as int) <= TRACK_VEL_CAP,
            abs_i(own_velocity.x as int) <= TRACK_VEL_CAP,
            abs_i(own_velocity.y as int) <= TRACK_VEL_CAP,
            self.position != own_position,
        ensures
            ({
                let dx = self.position.x - own_position.x;
                let dy = self.position.y - own_position.y;
                let rvx = self.velocity.x - own_velocity.x;
                let rvy = self.velocity.y - own_velocity.y;
                r == crate::num::div_t(-(rvx * dx + rvy * dy),
                    crate::num::sqrt_floor((dx * dx + dy * dy) as nat) as int)
            }),
    {
        let dx: i64 = self.position.x - own_position.x;
        let dy: i64 = self.position.y - own_position.y;
        let rvx: i64 = self.velocity.x - own_velocity.x;
        let rvy: i64 = self.velocity.y - own_velocity.y;
        proof {
            crate::vec2::lemma_sum_product_bound(rvx as int, rvy as int, dx as int,
                dy as int, 2 * TRACK_VEL_CAP, 2 * TRACK_POS_CAP);
            crate::vec2::lemma_sum_product_bound(dx as int, dy as int, dx as int,
                dy as int, 2 * TRACK_POS_CAP, 2 * TRACK_POS_CAP);
            crate::vec2::lemma_product_bound(dx as int, dx as int, 2 * TRACK_POS_CAP);
            crate::vec2::lemma_product_bound(dy as int, dy as int, 2 * TRACK_POS_CAP);
            crate::vec2::lemma_product_bound(rvx as int, dx as int, 2 * TRACK_POS_CAP);
            crate::vec2::lemma_product_bound(rvy as int, dy as int, 2 * TRACK_POS_CAP);
        }
        let dot: i128 = (rvx as i128) * (dx as i128) + (rvy as i128) * (dy as i128);
        proof {
            crate::vec2::lemma_square_nonneg(dx as int);
            crate::vec2::lemma_square_nonneg(dy as int);
            assert(dx != 0 ==> dx * dx >= 1) by (nonlinear_arith);
            assert(dy != 0 ==> dy * dy >= 1) by (nonlinear_arith);
            if dx == 0 && dy == 0 {
                assert(self.position == own_position);
            }
        }
        let n2: i128 = (dx as i128) * (dx as i128) + (dy as i128) * (dy as i128);
        let len = crate::num::isqrt_u128(n2 as u128);
        proof {
            crate::num::lemma_sqrt_floor_pos(n2 as nat);
            crate::num::lemma_sqrt_floor_le(n2 as nat, 0x7FFF_FFFF_FFFF_FFFF as nat);
        }
        crate::num::div_i128(-dot, len as i128)
    }

    /// Does this track's gate claim a plot at `point`?
    pub fn check_gate(&self, point: Vec2I) -> (r: bool)
        requires
            self.gate.wf(),
            -crate::gate::GATE_COORD_LIMIT <= point.x <= crate::gate::GATE_COORD_LIMIT,
            -crate::gate::GATE_COORD_LIMIT <= point.y <= crate::gate::GATE_COORD_LIMIT,
        ensures
            r == crate::gate::gate_contains(self.gate.center, self.gate.radius as int, point),
    {
        self.gate.point_in_gate(point)
    }

    /// Queue a plot for the next update.  The sensor contract delivers
    /// at most one plot per tick, so the slot must be empty.
    pub fn push_plot(&mut self, plot: ScanPlot)
        requires
            old(self).pending_plot is None,
        ensures
            *final(self) == (Track { pending_plot: Some(plot), ..*old(self) }),
    {
        self.pending_plot = Some(plot);
    }

    /// Apply the per-tick update rule once, then recenter this track's
    /// association window.
    ///
    /// With no plot queued this is the coast law; with one queued plot it
    /// is the differencing smoother, which also refreshes the
    /// last-contact tick to `now`.
    pub fn update(&mut self, cfg: Config, now: u64)
        requires
            cfg.wf(),
            abs_i(old(self).velocity.x as int) <= TRACK_VEL_CAP,
            abs_i(old(self).velocity.y as int) <= TRACK_VEL_CAP,
            abs_i(old(self).position.x as int) <= TRACK_POS_CAP,
            abs_i(old(self).position.y as int) <= TRACK_POS_CAP,
            old(self).pending_plot matches Some(p) ==> p.wf(),
        ensures
            final(self).id == old(self).id,
            final(self).class == old(self).class,
            final(self).gate.center == final(self).position,
            final(self).gate.radius == old(self).gate.radius,
            final(self).pending_plot is None,
            old(self).pending_plot is None ==> {
                &&& final(self).position.x == old(self).position.x + old(self).step_x(cfg)
                &&& final(self).position.y == old(self).position.y + old(self).step_y(cfg)
                &&& final(self).velocity == old(self).velocity
                &&& final(self).last_contact_tick == old(self).last_contact_tick
            },
            old(self).pending_plot matches Some(p) ==> {
                let ax = div_t(old(self).step_x(cfg) - div_t(p.velocity.x as int,
                    cfg.ticks_per_second as int), 2);
                let ay = div_t(old(self).step_y(cfg) - div_t(p.velocity.y as int,
                    cfg.ticks_per_second as int), 2);
                &&& final(self).position.x == old(self).position.x + ax
                &&& final(self).position.y == old(self).position.y + ay
                &&& final(self).velocity.x == (old(self).step_x(cfg) + ax)
                    * cfg.ticks_per_second
                &&& final(self).velocity.y == (old(self).step_y(cfg) + ay)
                    * cfg.ticks_per_second
                &&& final(self).last_contact_tick == now
            },
    {
        let tps: i64 = cfg.ticks_per_second as i64;
        proof {
            lemma_div_t_abs(self.velocity.x as int, tps as int);
            lemma_div_t_abs(self.velocity.y as int, tps as int);
        }
        let vtx = div_i64(self.velocity.x, tps);
        let vty = div_i64(self.velocity.y, tps);
        match self.pending_plot {
            None => {
                self.position = Vec2I { x: self.position.x + vtx, y: self.position.y + vty };
            },
            Some(plot) => {
                proof {
                    lemma_div_t_abs(plot.velocity.x as int, tps as int);
                    lemma_div_t_abs(plot.velocity.y as int, tps as int);
                }
                let pvtx = div_i64(plot.velocity.x, tps);
                let pvty = div_i64(plot.velocity.y, tps);
                proof {
                    lemma_div_t_abs(vtx - pvtx, 2);
                    lemma_div_t_abs(vty - pvty, 2);
                }
                let ax = div_i64(vtx - pvtx, 2);
                let ay = div_i64(vty - pvty, 2);
                proof {
                    lemma_scaled_sum_bound(vtx as int, ax as int, tps as int);
                    lemma_scaled_sum_bound(vty as int, ay as int, tps as int);
                }
                self.velocity = Vec2I { x: (vtx + ax) * tps, y: (vty + ay) * tps };
                self.position = Vec2I { x: self.position.x + ax, y: self.position.y + ay };
                self.last_contact_tick = now;
                self.pending_plot = None;
            },
        }
        self.gate.update_center(self.position);
    }
}

/// `(vt + a) * tps` stays comfortably inside `i64` for per-tick speeds
/// and accelerations within the caps.
proof fn lemma_scaled_sum_bound(vt: int, a: int, tps: int) by (nonlinear_arith)
    requires
        abs_i(vt) <= TRACK_VEL_CAP,
        abs_i(a) <= TRACK_VEL_CAP,
        1 <= tps <= 600,
    ensures
        abs_i((vt + a) * tps) <= 600 * 2 * TRACK_VEL_CAP,
{
}

} // verus!
