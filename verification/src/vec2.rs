//! Plane vectors with `i64` milli-unit components, and the quadrant
//! classification helpers used by the maneuvering logic.

use vstd::prelude::*;
use crate::num::{sqrt_floor, lemma_sqrt_floor};

verus! {

/// A point or vector of the 2D arena, components in milli-units.
#[derive(Clone, Copy, Debug, PartialEq, Eq, Structural)]
pub struct Vec2I {
    pub x: i64,
    pub y: i64,
}

/// Quadrant of the unit circle, counted counter-clockwise from +x/+y.
#[derive(Clone, Copy, Debug, PartialEq, Eq, Structural)]
pub enum Quadrant {
    One,
    Two,
    Three,
    Four,
}

impl Vec2I {
    /// Build a vector from its components.
    pub fn new(x: i64, y: i64) -> (v: Vec2I)
        ensures
            v.x == x,
            v.y == y,
    {
        Vec2I { x, y }
    }

    /// Componentwise sum.
    pub fn add(self, other: Vec2I) -> (v: Vec2I)
        requires
            i64::MIN <= self.x + other.x <= i64::MAX,
            i64::MIN <= self.y + other.y <= i64::MAX,
        ensures
            v.x == self.x + other.x,
            v.y == self.y + other.y,
    {
        Vec2I { x: self.x + other.x, y: self.y + other.y }
    }

    /// Componentwise difference.
    pub fn sub(self, other: Vec2I) -> (v: Vec2I)
        requires
            i64::MIN <= self.x - other.x <= i64::MAX,
            i64::MIN <= self.y - other.y <= i64::MAX,
        ensures
            v.x == self.x - other.x,
            v.y == self.y - other.y,
    {
        Vec2I { x: self.x - other.x, y: self.y - other.y }
    }

    /// Mathematical dot product of two vectors.
    pub open spec fn spec_dot(self, other: Vec2I) -> int {
        self.x * other.x + self.y * other.y
    }

    /// Squared Euclidean length.
    pub open spec fn spec_norm2(self) -> int {
        self.spec_dot(self)
    }

    /// Dot product, computed in `i128` so it cannot overflow for any
    /// components within `COMPONENT_LIMIT`.
    pub fn dot(self, other: Vec2I) -> (d: i128)
        requires
            -COMPONENT_LIMIT <= self.x <= COMPONENT_LIMIT,
            -COMPONENT_LIMIT <= self.y <= COMPONENT_LIMIT,
            -COMPONENT_LIMIT <= other.x <= COMPONENT_LIMIT,
            -COMPONENT_LIMIT <= other.y <= COMPONENT_LIMIT,
        ensures
            d == self.spec_dot(other),
    {
        proof {
            lemma_product_bound(self.x as int, other.x as int, COMPONENT_LIMIT as int);
            lemma_product_bound(self.y as int, other.y as int, COMPONENT_LIMIT as int);
        }
        (self.x as i128) * (other.x as i128) + (self.y as i128) * (other.y as i128)
    }

    /// Squared Euclidean length, in `i128`.
    pub fn norm2(self) -> (n: i128)
        requires
            -COMPONENT_LIMIT <= self.x <= COMPONENT_LIMIT,
            -COMPONENT_LIMIT <= self.y <= COMPONENT_LIMIT,
        ensures
            n == self.spec_norm2(),
            n >= 0,
    {
        proof {
            lemma_square_nonneg(self.x as int);
            lemma_square_nonneg(self.y as int);
        }
        self.dot(self)
    }

    /// Floor of the Euclidean length.
    pub fn len_floor(self) -> (l: i64)
        requires
            -COMPONENT_LIMIT <= self.x <= COMPONENT_LIMIT,
            -COMPONENT_LIMIT <= self.y <= COMPONENT_LIMIT,
        ensures
            l == sqrt_floor(self.spec_norm2() as nat),
            0 <= l,
            l * l <= self.spec_norm2(),
            self.spec_norm2() < (l + 1) * (l + 1),
    {
        let n = self.norm2();
        let r = crate::num::isqrt_u128(n as u128);
        proof {
            lemma_sqrt_floor(n as nat);
            lemma_product_bound(self.x as int, self.x as int, COMPONENT_LIMIT as int);
            lemma_product_bound(self.y as int, self.y as int, COMPONENT_LIMIT as int);
            assert(r <= 0x7FFF_FFFF_FFFF_FFFF) by {
                if r > 0x7FFF_FFFF_FFFF_FFFF {
                    assert(r * r > n) by (nonlinear_arith)
                        requires
                            r >= 0x8000_0000_0000_0000u128,
                            n <= 2 * (COMPONENT_LIMIT as int) * (COMPONENT_LIMIT as int),
                    ;
                }
            }
        }
        r as i64
    }

    /// Quadrant this vector points into; axes fall into the last quadrant
    /// checked, mirroring the sign tests.
    pub open spec fn spec_quadrant(self) -> Quadrant {
        if self.x > 0 && self.y > 0 {
            Quadrant::One
        } else if self.x < 0 && self.y > 0 {
            Quadrant::Two
        } else if self.x < 0 && self.y < 0 {
            Quadrant::Three
        } else {
            Quadrant::Four
        }
    }

    /// Quadrant of the unit circle that this point lies in.
    pub fn get_quadrant(&self) -> (q: Quadrant)
        ensures
            q == self.spec_quadrant(),
    {
        if self.x > 0 && self.y > 0 {
            Quadrant::One
        } else if self.x < 0 && self.y > 0 {
            Quadrant::Two
        } else if self.x < 0 && self.y < 0 {
            Quadrant::Three
        } else {
            Quadrant::Four
        }
    }

    /// Quadrant of this point as seen from `other`.
    pub open spec fn spec_relative_quadrant(self, other: Vec2I) -> Quadrant {
        if self.x > other.x && self.y > other.y {
            Quadrant::One
        } else if self.x < other.x && self.y > other.y {
            Quadrant::Two
        } else if self.x < other.x && self.y < other.y {
            Quadrant::Three
        } else {
            Quadrant::Four
        }
    }

    /// Quadrant of this point as seen from `other`.
    pub fn get_relative_quadrant(&self, other: Vec2I) -> (q: Quadrant)
        ensures
            q == self.spec_relative_quadrant(other),
    {
        if self.x > other.x && self.y > other.y {
            Quadrant::One
        } else if self.x < other.x && self.y > other.y {
            Quadrant::Two
        } else if self.x < other.x && self.y < other.y {
            Quadrant::Three
        } else {
            Quadrant::Four
        }
    }
}

/// Components this large can be multiplied and summed in `i128` without
/// overflow; every quantity in the crate stays far below it.
pub const COMPONENT_LIMIT: i64 = 0x4000_0000_0000_0000;

/// `|a|, |b| <= m` bounds the product by `m^2`.
pub proof fn lemma_product_bound(a: int, b: int, m: int) by (nonlinear_arith)
    requires
        -m <= a <= m,
        -m <= b <= m,
        m >= 0,
    ensures
        -(m * m) <= a * b <= m * m,
{
}

/// A sum of two products of bounded factors is bounded by twice the
/// product of the bounds.
pub proof fn lemma_sum_product_bound(
    ax: int, ay: int, bx: int, by: int, ma: int, mb: int,
) by (nonlinear_arith)
    requires
        ma >= 0,
        mb >= 0,
        -ma <= ax <= ma,
        -ma <= ay <= ma,
        -mb <= bx <= mb,
        -mb <= by <= mb,
    ensures
        -(2 * ma * mb) <= ax * bx + ay * by <= 2 * ma * mb,
{
}

/// Squares are nonnegative.
pub proof fn lemma_square_nonneg(a: int) by (nonlinear_arith)
    ensures
        a * a >= 0,
{
}

} // verus!
