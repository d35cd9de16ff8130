//! Grid coordinates and displacements.
//!
//! The arithmetic on coordinates is done by `cgmath`; a [`Point`] carries the
//! two components as plain integers so that contracts can speak of them.

use vstd::prelude::*;
use cgmath::Vector2;

verus! {

/// A position on the grid, or a displacement between two positions.
#[derive(Debug, Copy, Clone, PartialEq, Eq, Structural)]
pub struct Point {
    pub x: i32,
    pub y: i32,
}

impl Point {
    /// The point with the given components.
    pub fn new(x: i32, y: i32) -> (p: Point)
        ensures
            p.x == x,
            p.y == y,
    {
        Point { x, y }
    }

    /// A step is a displacement of length one along a single axis.
    pub open spec fn is_step(self) -> bool {
        ||| (self.x == 1 && self.y == 0)
        ||| (self.x == -1 && self.y == 0)
        ||| (self.x == 0 && self.y == 1)
        ||| (self.x == 0 && self.y == -1)
    }
}

/// Component-wise sum of two points, computed by `cgmath`'s `Add` on
/// `Vector2<i32>`, which adds the `x` and the `y` components with `+`. The
/// contract states that sum for arguments whose components do not overflow.
#[verifier::external_body]
pub(crate) fn point_add(a: Point, b: Point) -> (sum: Point)
    requires
        i32::MIN <= a.x + b.x <= i32::MAX,
        i32::MIN <= a.y + b.y <= i32::MAX,
    ensures
        sum.x == a.x + b.x,
        sum.y == a.y + b.y,
{
    let v = Vector2::new(a.x, a.y) + Vector2::new(b.x, b.y);
    Point { x: v.x, y: v.y }
}

/// A point scaled by an integer, computed by `cgmath`'s `Mul<i32>` on
/// `Vector2<i32>`, which multiplies each component by the scalar with `*`.
/// The contract states those products for arguments that do not overflow.
#[verifier::external_body]
pub(crate) fn point_scale(a: Point, factor: i32) -> (scaled: Point)
    requires
        i32::MIN <= a.x * factor <= i32::MAX,
        i32::MIN <= a.y * factor <= i32::MAX,
    ensures
        scaled.x == a.x * factor,
        scaled.y == a.y * factor,
{
    let v = Vector2::new(a.x, a.y) * factor;
    Point { x: v.x, y: v.y }
}

/// The position reached from `origin` after `k` steps of `delta`.
pub open spec fn ahead(origin: Point, delta: Point, k: int) -> (int, int) {
    (origin.x + delta.x * k, origin.y + delta.y * k)
}

/// For a step, scaling is a choice among `k`, `-k` and `0` in each component.
pub proof fn lemma_ahead_step(origin: Point, delta: Point, k: int)
    requires
        delta.is_step(),
    ensures
        delta.x == 1 ==> ahead(origin, delta, k) == (origin.x + k, origin.y as int),
        delta.x == -1 ==> ahead(origin, delta, k) == (origin.x - k, origin.y as int),
        delta.y == 1 ==> ahead(origin, delta, k) == (origin.x as int, origin.y + k),
        delta.y == -1 ==> ahead(origin, delta, k) == (origin.x as int, origin.y - k),
{
    assert(delta.x == 1 ==> delta.x * k == k) by (nonlinear_arith);
    assert(delta.x == -1 ==> delta.x * k == -k) by (nonlinear_arith);
    assert(delta.x == 0 ==> delta.x * k == 0) by (nonlinear_arith);
    assert(delta.y == 1 ==> delta.y * k == k) by (nonlinear_arith);
    assert(delta.y == -1 ==> delta.y * k == -k) by (nonlinear_arith);
    assert(delta.y == 0 ==> delta.y * k == 0) by (nonlinear_arith);
}

} // verus!
