//! The spatial association window owned by a track: a square "gate"
//! centered on the track's latest resolved position.  A plot associates
//! with the track exactly when it falls strictly inside all four edges.

use vstd::prelude::*;
use crate::vec2::Vec2I;
use crate::config::GATE_RADIUS_LIMIT;

verus! {

/// Coordinates this large still leave the doubled differences of the
/// membership test inside `i64`.
pub const GATE_COORD_LIMIT: i64 = 0x1000_0000_0000_0000;

/// A square association window: `center` is recentered on the owning
/// track's position every tick, `radius` is the side length.
#[derive(Clone, Copy, Debug, PartialEq, Eq, Structural)]
pub struct TrackGate {
    pub center: Vec2I,
    pub radius: i64,
}

/// Strict-interior membership: `p` lies inside every edge of the square
/// of side `radius` centered on `center`; a point exactly on an edge is
/// outside.  Comparisons are doubled so that half-unit edges need no
/// division.
pub open spec fn gate_contains(center: Vec2I, radius: int, p: Vec2I) -> bool {
    &&& -radius < 2 * (p.x - center.x) < radius
    &&& -radius < 2 * (p.y - center.y) < radius
}

impl TrackGate {
    /// Well-formed gates have a positive, bounded radius and in-range
    /// center coordinates.
    pub open spec fn wf(self) -> bool {
        &&& 0 < self.radius <= GATE_RADIUS_LIMIT
        &&& -GATE_COORD_LIMIT <= self.center.x <= GATE_COORD_LIMIT
        &&& -GATE_COORD_LIMIT <= self.center.y <= GATE_COORD_LIMIT
    }

    /// Build a gate around `point`.
    pub fn new(point: Vec2I, radius: i64) -> (g: TrackGate)
        ensures
            g.center == point,
            g.radius == radius,
    {
        TrackGate { center: point, radius }
    }

    /// Strict-interior membership test against all four edges.
    pub fn point_in_gate(&self, point: Vec2I) -> (r: bool)
        requires
            self.wf(),
            -GATE_COORD_LIMIT <= point.x <= GATE_COORD_LIMIT,
            -GATE_COORD_LIMIT <= point.y <= GATE_COORD_LIMIT,
        ensures
            r == gate_contains(self.center, self.radius as int, point),
    {
        let dx: i64 = 2 * (point.x - self.center.x);
        let dy: i64 = 2 * (point.y - self.center.y);
        -self.radius < dx && dx < self.radius && -self.radius < dy && dy < self.radius
    }

    /// Recenter the window; called unconditionally once per track update.
    pub fn update_center(&mut self, center: Vec2I)
        ensures
            final(self).center == center,
            final(self).radius == old(self).radius,
    {
        self.center = center;
    }

    /// Resize the window, for variants with adaptive gate sizing.
    pub fn update_radius(&mut self, radius: i64)
        requires
            0 < radius <= GATE_RADIUS_LIMIT,
        ensures
            final(self).radius == radius,
            final(self).center == old(self).center,
    {
        self.radius = radius;
    }
}

/// Gate membership is boundary-exclusive: a point exactly on any of the
/// four gate edges is never classified as inside, for every center and
/// radius.  A point is on an edge when one doubled offset equals the
/// radius in magnitude while the other does not exceed it.
pub proof fn lemma_gate_boundary_exclusive(center: Vec2I, radius: int, p: Vec2I)
    requires
        (abs_2diff(p.x as int, center.x as int) == radius
            && abs_2diff(p.y as int, center.y as int) <= radius)
            || (abs_2diff(p.y as int, center.y as int) == radius
                && abs_2diff(p.x as int, center.x as int) <= radius),
    ensures
        !gate_contains(center, radius, p),
{
}

/// Magnitude of the doubled offset `2 * (a - b)`.
pub open spec fn abs_2diff(a: int, b: int) -> int {
    crate::num::abs_i(2 * (a - b))
}

} // verus!
