//! The ambient constants of the engine — tick rate, projectile speed,
//! staleness window, hysteresis length, gate size — hoisted into an
//! explicit configuration value passed at construction, so callers and
//! tests can vary them independently.

use vstd::prelude::*;

verus! {

/// Largest position component (milli-units) a sensor plot may report;
/// the host arena is far smaller.
pub const PLOT_POS_LIMIT: i64 = 1_000_000_000;

/// Largest velocity component (milli-units per second) a sensor plot may
/// report.
pub const PLOT_VEL_LIMIT: i64 = 100_000_000;

/// Largest association gate side length (milli-units).
pub const GATE_RADIUS_LIMIT: i64 = 1_000_000_000;

/// Largest supported tick rate (ticks per second).
pub const TICK_RATE_LIMIT: u32 = 600;

/// Largest supported staleness window (ticks).
pub const STALENESS_LIMIT: u32 = 600;

/// Largest projectile speed (milli-units per second) the intercept solver
/// accepts.
pub const PROJECTILE_SPEED_LIMIT: i64 = 400_000_000;

/// Fixed configuration of the engine, chosen at construction.
#[derive(Clone, Copy, Debug, PartialEq, Eq, Structural)]
pub struct Config {
    /// Simulation ticks per second (e.g. 60).
    pub ticks_per_second: u32,
    /// Projectile muzzle speed, milli-units per second.
    pub bullet_speed: i64,
    /// Ticks a track may go without a matched plot before eviction.
    pub staleness_window: u32,
    /// Ticks a designation is held before replacement is permitted.
    pub sticky_ticks: u32,
    /// Side length of a freshly created track gate, milli-units.
    pub gate_radius: i64,
    /// Ticks without any sensor contact before the radar is driven to its
    /// longest-range sweep.
    pub recency_threshold: u32,
    /// Range (milli-units) beyond which a designated target counts as
    /// out of target range.
    pub target_range: i64,
}

impl Config {
    /// The ranges under which every arithmetic step of the engine is
    /// proven free of overflow.
    pub open spec fn wf(self) -> bool {
        &&& 1 <= self.ticks_per_second <= TICK_RATE_LIMIT
        &&& 0 < self.bullet_speed <= PROJECTILE_SPEED_LIMIT
        &&& 1 <= self.staleness_window <= STALENESS_LIMIT
        &&& 0 < self.gate_radius <= GATE_RADIUS_LIMIT
        &&& 0 < self.target_range <= PLOT_POS_LIMIT
    }

    /// The stock configuration: 60 ticks per second, a 1000 unit/s
    /// projectile, a 30-tick staleness window, a one-tick designation
    /// hold and 50-unit gates.
    pub fn standard() -> (c: Config)
        ensures
            c.wf(),
            c.ticks_per_second == 60,
            c.bullet_speed == 1_000_000,
            c.staleness_window == 30,
            c.sticky_ticks == 1,
            c.gate_radius == 50_000,
            c.recency_threshold == 30,
            c.target_range == 50_000_000,
    {
        Config {
            ticks_per_second: 60,
            bullet_speed: 1_000_000,
            staleness_window: 30,
            sticky_ticks: 1,
            gate_radius: 50_000,
            recency_threshold: 30,
            target_range: 50_000_000,
        }
    }
}

} // verus!
