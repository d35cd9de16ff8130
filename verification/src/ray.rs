//! The cells ahead of a position, and what a push does to them.
//!
//! A push concerns only the cells that lie in front of the player along the
//! direction of the move. This module lists their heights as a row, the ray,
//! and states on that row when a push is possible and what it leaves behind.

use vstd::prelude::*;
use crate::field::{cell_index, off_grid, CELLS, HEIGHT, WIDTH};
use crate::piles::{heights_wf, lemma_total_extend, spare};
use crate::point::{ahead, lemma_ahead_step, Point};
use crate::snow::{min_int, MAX_SNOW_PILE};

verus! {

/// The number of cells that lie ahead of `origin` in the direction of the
/// step `delta` before the grid ends.
pub open spec fn reach(origin: Point, delta: Point) -> int {
    if delta.x == 1 {
        WIDTH - 1 - origin.x
    } else if delta.x == -1 {
        origin.x as int
    } else if delta.y == 1 {
        HEIGHT - 1 - origin.y
    } else {
        origin.y as int
    }
}

/// The place in row-major order of the cell `k` steps ahead of `origin`.
pub open spec fn ray_index(origin: Point, delta: Point, k: int) -> int {
    cell_index(ahead(origin, delta, k).0, ahead(origin, delta, k).1)
}

/// The heights of the cells ahead of `origin`, nearest first.
pub open spec fn ray(cells: Seq<int>, origin: Point, delta: Point) -> Seq<int> {
    Seq::new(reach(origin, delta) as nat, |j: int| cells[ray_index(origin, delta, j + 1)])
}

/// How many steps of `delta` lead from `origin` to `(x, y)`, provided that
/// the cell lies on the line through `origin` along `delta`.
pub open spec fn steps_to(origin: Point, delta: Point, x: int, y: int) -> int {
    (x - origin.x) * delta.x + (y - origin.y) * delta.y
}

/// The cell `(x, y)` lies ahead of `origin` in the direction `delta`.
pub open spec fn on_ray(origin: Point, delta: Point, x: int, y: int) -> bool {
    let k = steps_to(origin, delta, x, y);
    k >= 1 && ahead(origin, delta, k) == (x, y)
}

/// A ray is jammed for a given strength when the run of full piles at its
/// start is longer than the strength: the first pile is full, and so are
/// the next `strength` piles. No strength moves a full pile for nothing, so
/// a strength below zero counts as zero.
pub open spec fn jammed(ray: Seq<int>, strength: int) -> bool {
    let tolerated = if strength > 0 {
        strength
    } else {
        0
    };
    forall|i: int| 0 <= i <= tolerated ==> i < ray.len() && #[trigger] ray[i] == MAX_SNOW_PILE
}

/// The first pile of the ray fits into the spare room of the piles behind
/// it, the last pile of the ray not counted: a push goes on to the cell
/// after the one that takes its last unit, and that cell must exist.
pub open spec fn fits(ray: Seq<int>) -> bool {
    &&& ray.len() >= 2
    &&& ray[0] <= spare(ray.subrange(1, ray.len() - 1))
}

/// The first pile of the ray can be pushed onward with the given strength.
pub open spec fn can_push(ray: Seq<int>, strength: int) -> bool {
    fits(ray) && !jammed(ray, strength)
}

/// What is left of the first pile of the ray once it has filled up the
/// piles that lie between it and position `j`.
pub open spec fn overflow(ray: Seq<int>, j: int) -> int {
    let rest = ray[0] - spare(ray.subrange(1, j));
    if rest > 0 {
        rest
    } else {
        0
    }
}

/// The height at position `j` of the ray after its first pile was pushed
/// onward: the first cell is cleared, and every later pile takes what still
/// arrives there, up to its room.
pub open spec fn settled(ray: Seq<int>, j: int) -> int {
    if j == 0 {
        0
    } else {
        ray[j] + min_int(overflow(ray, j), MAX_SNOW_PILE - ray[j])
    }
}

/// The field after the pile in front of `origin` was pushed along `delta`:
/// the cells of the ray settle, all others keep their height.
pub open spec fn pushed(cells: Seq<int>, origin: Point, delta: Point) -> Seq<int> {
    Seq::new(
        cells.len(),
        |i: int|
            {
                let x = i % (WIDTH as int);
                let y = i / (WIDTH as int);
                if on_ray(origin, delta, x, y) {
                    settled(ray(cells, origin, delta), steps_to(origin, delta, x, y) - 1)
                } else {
                    cells[i]
                }
            },
    )
}

/// The cells ahead of a position on the grid are exactly those within reach.
pub proof fn lemma_reach(origin: Point, delta: Point, k: int)
    requires
        !off_grid(origin.x as int, origin.y as int),
        delta.is_step(),
        k >= 1,
    ensures
        0 <= reach(origin, delta) < WIDTH,
        off_grid(ahead(origin, delta, k).0, ahead(origin, delta, k).1) <==> k > reach(
            origin,
            delta,
        ),
{
    lemma_ahead_step(origin, delta, k);
}

/// A cell within reach has its place in the row-major order, lies on the
/// ray, and is found again from its coordinates.
pub proof fn lemma_ray_cell(origin: Point, delta: Point, k: int)
    requires
        !off_grid(origin.x as int, origin.y as int),
        delta.is_step(),
        1 <= k <= reach(origin, delta),
    ensures
        ({
            let (x, y) = ahead(origin, delta, k);
            let i = ray_index(origin, delta, k);
            &&& !off_grid(x, y)
            &&& 0 <= i < CELLS
            &&& x == i % (WIDTH as int)
            &&& y == i / (WIDTH as int)
            &&& steps_to(origin, delta, x, y) == k
            &&& on_ray(origin, delta, x, y)
        }),
{
    lemma_ahead_step(origin, delta, k);
    let (x, y) = ahead(origin, delta, k);
    lemma_steps_step(origin, delta, x, y);
}

/// For a step, the number of steps to a cell is a plain difference.
pub proof fn lemma_steps_step(origin: Point, delta: Point, x: int, y: int)
    requires
        delta.is_step(),
    ensures
        delta.x == 1 ==> steps_to(origin, delta, x, y) == x - origin.x,
        delta.x == -1 ==> steps_to(origin, delta, x, y) == origin.x - x,
        delta.y == 1 ==> steps_to(origin, delta, x, y) == y - origin.y,
        delta.y == -1 ==> steps_to(origin, delta, x, y) == origin.y - y,
{
    let a = x - origin.x;
    let b = y - origin.y;
    assert(delta.x == 1 ==> a * delta.x == a) by (nonlinear_arith);
    assert(delta.x == -1 ==> a * delta.x == -a) by (nonlinear_arith);
    assert(delta.x == 0 ==> a * delta.x == 0) by (nonlinear_arith);
    assert(delta.y == 1 ==> b * delta.y == b) by (nonlinear_arith);
    assert(delta.y == -1 ==> b * delta.y == -b) by (nonlinear_arith);
    assert(delta.y == 0 ==> b * delta.y == 0) by (nonlinear_arith);
}

/// A cell of the grid that lies on the ray is the cell within reach that
/// its number of steps names.
pub proof fn lemma_on_ray(origin: Point, delta: Point, i: int)
    requires
        !off_grid(origin.x as int, origin.y as int),
        delta.is_step(),
        0 <= i < CELLS,
        on_ray(origin, delta, i % (WIDTH as int), i / (WIDTH as int)),
    ensures
        ({
            let k = steps_to(origin, delta, i % (WIDTH as int), i / (WIDTH as int));
            &&& 1 <= k <= reach(origin, delta)
            &&& ray_index(origin, delta, k) == i
        }),
{
    let x = i % (WIDTH as int);
    let y = i / (WIDTH as int);
    let k = steps_to(origin, delta, x, y);
    lemma_reach(origin, delta, k);
}

/// The ray of a well-formed field is a well-formed row whose entries are
/// the heights of the cells within reach.
pub proof fn lemma_ray_wf(cells: Seq<int>, origin: Point, delta: Point)
    requires
        cells.len() == CELLS,
        heights_wf(cells),
        !off_grid(origin.x as int, origin.y as int),
        delta.is_step(),
    ensures
        ray(cells, origin, delta).len() == reach(origin, delta),
        heights_wf(ray(cells, origin, delta)),
{
    lemma_reach(origin, delta, 1);
    let r = ray(cells, origin, delta);
    assert forall|j: int| 0 <= j < r.len() implies 0 <= #[trigger] r[j] <= MAX_SNOW_PILE by {
        lemma_ray_cell(origin, delta, j + 1);
    }
}

/// What arrives one position further is what arrived here less the room
/// that this pile had.
pub proof fn lemma_overflow_next(ray: Seq<int>, j: int)
    requires
        heights_wf(ray),
        1 <= j < ray.len(),
    ensures
        overflow(ray, j + 1) == {
            let rest = overflow(ray, j) - (MAX_SNOW_PILE - ray[j]);
            if rest > 0 {
                rest
            } else {
                0
            }
        },
{
    lemma_total_extend(ray, 1, j);
}

} // verus!
