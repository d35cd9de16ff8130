//! Plowing: deciding whether the pile ahead can be pushed, and pushing it.

use vstd::prelude::*;
use crate::field::{off_grid, out_of_bounds, CELLS, WIDTH};
use crate::piles::{heights_wf, lemma_spare_grows, lemma_total_update, total};
use crate::point::{ahead, lemma_ahead_step, point_add, point_scale, Point};
use crate::ray::{
    can_push, fits, jammed, lemma_on_ray, lemma_overflow_next, lemma_ray_cell, lemma_ray_wf,
    lemma_reach, on_ray, overflow, pushed, ray, ray_index, reach, settled, steps_to,
};
use crate::snow::MAX_SNOW_PILE;
use crate::world::Whiteout;

verus! {

impl Whiteout {
    /// Decides whether the pile next to `origin` in the direction `delta`
    /// can be pushed onward with the given strength.
    ///
    /// The pile travels along the cells behind it, and each of them takes
    /// what it has room for. The push is possible if the pile is used up
    /// while a further cell of the grid lies ahead, so that the last cell
    /// before the edge takes nothing, and if the full piles in a row at the
    /// start, the pushed one among them, are not more than `strength`.
    pub fn can_push_snow(&self, origin: Point, delta: Point, strength: i32) -> (possible: bool)
        requires
            self.field.wf(),
            !off_grid(origin.x as int, origin.y as int),
            delta.is_step(),
        ensures
            possible == can_push(ray(self@.cells, origin, delta), strength as int),
    {
        let ghost row = ray(self@.cells, origin, delta);
        proof {
            lemma_ray_wf(self@.cells, origin, delta);
            lemma_reach(origin, delta, 1);
            lemma_reach(origin, delta, 2);
            lemma_ahead_step(origin, delta, 1);
            lemma_ahead_step(origin, delta, 2);
        }
        let source = point_add(origin, delta);
        if out_of_bounds(source.x, source.y) {
            return false;
        }
        proof {
            lemma_ray_cell(origin, delta, 1);
        }
        let mut carry = self.field.snow_at(source.x, source.y);
        let mut pushing_max = carry.is_max_pile();
        let mut mult: i32 = 2;
        let mut target = point_add(origin, point_scale(delta, mult));
        let mut strength_required: i32 = if pushing_max {
            1
        } else {
            0
        };
        assert(row.subrange(1, 1) =~= Seq::<int>::empty());
        loop
            invariant
                self.field.wf(),
                !off_grid(origin.x as int, origin.y as int),
                delta.is_step(),
                row == ray(self@.cells, origin, delta),
                row.len() == reach(origin, delta),
                heights_wf(row),
                2 <= mult <= row.len() + 1,
                row.len() < WIDTH,
                (target.x as int, target.y as int) == ahead(origin, delta, mult as int),
                carry.wf(),
                carry@ == overflow(row, mult - 1),
                mult > 2 ==> overflow(row, mult - 2) > 0,
                0 <= strength_required <= mult,
                pushing_max ==> strength_required == mult - 1 && carry@ == MAX_SNOW_PILE
                    && forall|i: int| 0 <= i < mult - 1 ==> #[trigger] row[i] == MAX_SNOW_PILE,
                !pushing_max ==> !jammed(row, strength as int),
            decreases row.len() + 2 - mult,
        {
            proof {
                lemma_reach(origin, delta, mult as int);
            }
            if out_of_bounds(target.x, target.y) {
                return false;
            }
            if carry.is_clear() {
                proof {
                    lemma_spare_grows(row, 1, mult - 1, row.len() - 1);
                }
                return true;
            }
            if strength_required > strength && pushing_max {
                return false;
            }
            proof {
                lemma_ray_cell(origin, delta, mult as int);
                lemma_overflow_next(row, mult - 1);
                lemma_ahead_step(origin, delta, mult + 1);
            }
            let mut target_snow = self.field.snow_at(target.x, target.y);
            if target_snow.take_needed(&mut carry) == 0 {
                strength_required += 1;
            } else {
                proof {
                    if pushing_max {
                        assert(row[mult - 1] != MAX_SNOW_PILE);
                    }
                }
                pushing_max = false;
            }
            mult += 1;
            target = point_add(origin, point_scale(delta, mult));
        }
    }

    /// Pushes the pile next to `origin` onward in the direction `delta`: the
    /// pile is lifted and poured into the cells behind it, one after the
    /// other, until nothing is left. The snow of the pile must fit.
    pub fn push_snow(&mut self, origin: Point, delta: Point)
        requires
            old(self).field.wf(),
            !off_grid(origin.x as int, origin.y as int),
            delta.is_step(),
            fits(ray(old(self)@.cells, origin, delta)),
        ensures
            final(self)@.cells == pushed(old(self)@.cells, origin, delta),
            final(self).field.wf(),
            total(final(self)@.cells) == total(old(self)@.cells),
            final(self).player == old(self).player,
            final(self).shovel == old(self).shovel,
            final(self).carrying == old(self).carrying,
    {
        let ghost before = self@;
        let ghost row = ray(before.cells, origin, delta);
        proof {
            lemma_ray_wf(before.cells, origin, delta);
            lemma_ahead_step(origin, delta, 1);
            lemma_ahead_step(origin, delta, 2);
            lemma_ray_cell(origin, delta, 1);
            lemma_ray_cell(origin, delta, 2);
        }
        let source = point_add(origin, delta);
        let mut carry = self.field.snow_at_mut(source.x, source.y).take_all();
        proof {
            lemma_pour_start(before.cells, self.field@, origin, delta);
            assert(row.subrange(1, 1) =~= Seq::<int>::empty());
        }
        let mut mult: i32 = 2;
        let mut target = point_add(origin, point_scale(delta, mult));
        loop
            invariant_except_break
                carry@ == overflow(row, mult - 1),
                poured(before.cells, self.field@, origin, delta, mult as int),
            invariant
                !off_grid(origin.x as int, origin.y as int),
                delta.is_step(),
                before.cells.len() == CELLS,
                heights_wf(before.cells),
                row == ray(before.cells, origin, delta),
                row.len() == reach(origin, delta),
                heights_wf(row),
                fits(row),
                row.len() < WIDTH,
                2 <= mult <= row.len(),
                (target.x as int, target.y as int) == ahead(origin, delta, mult as int),
                carry.wf(),
                self.field.wf(),
                self.player == before.player,
                self.shovel == before.shovel,
                self.carrying@ == before.carrying,
            ensures
                overflow(row, mult as int) == 0,
                poured(before.cells, self.field@, origin, delta, mult + 1),
            decreases row.len() - mult,
        {
            let ghost field_then = self.field;
            proof {
                lemma_reach(origin, delta, mult as int);
                lemma_ray_cell(origin, delta, mult as int);
                lemma_overflow_next(row, mult - 1);
                lemma_pour_next(before.cells, self.field@, origin, delta, mult as int);
            }
            self.field.snow_at_mut(target.x, target.y).take_needed(&mut carry);
            proof {
                lemma_pour_step(before.cells, field_then@, self.field@, origin, delta, mult as int);
            }
            if carry.is_clear() {
                break;
            }
            proof {
                if mult >= row.len() - 1 {
                    lemma_spare_grows(row, 1, row.len() - 1, mult as int);
                }
                lemma_ahead_step(origin, delta, mult + 1);
            }
            mult += 1;
            target = point_add(origin, point_scale(delta, mult));
        }
        proof {
            lemma_pour_done(before.cells, self.field@, origin, delta, mult as int);
            lemma_pushed_total(before.cells, origin, delta);
        }
    }
}

/// A push keeps every height of the field within bounds.
pub proof fn lemma_pushed_wf(cells: Seq<int>, origin: Point, delta: Point)
    requires
        cells.len() == CELLS,
        heights_wf(cells),
        !off_grid(origin.x as int, origin.y as int),
        delta.is_step(),
    ensures
        pushed(cells, origin, delta).len() == CELLS,
        heights_wf(pushed(cells, origin, delta)),
{
    let row = ray(cells, origin, delta);
    let after = pushed(cells, origin, delta);
    lemma_ray_wf(cells, origin, delta);
    assert forall|i: int| 0 <= i < after.len() implies 0 <= #[trigger] after[i]
        <= MAX_SNOW_PILE by {
        if on_ray(origin, delta, i % (WIDTH as int), i / (WIDTH as int)) {
            lemma_on_ray(origin, delta, i);
        }
    }
}

/// A push of a pile that fits moves snow and neither adds nor loses any.
pub proof fn lemma_pushed_total(cells: Seq<int>, origin: Point, delta: Point)
    requires
        cells.len() == CELLS,
        heights_wf(cells),
        !off_grid(origin.x as int, origin.y as int),
        delta.is_step(),
        fits(ray(cells, origin, delta)),
    ensures
        total(pushed(cells, origin, delta)) == total(cells),
{
    let row = ray(cells, origin, delta);
    lemma_ray_wf(cells, origin, delta);
    let last = row.len() as int;
    let now = lemma_pour_all(cells, origin, delta, last + 1);
    lemma_spare_grows(row, 1, last - 1, last);
    lemma_pour_done(cells, now, origin, delta, last);
}

/// A field in which the cells nearer than `next` steps have settled, and
/// whose total is short of the total before by what is still to be poured.
proof fn lemma_pour_all(cells: Seq<int>, origin: Point, delta: Point, next: int) -> (now: Seq<int>)
    requires
        cells.len() == CELLS,
        heights_wf(cells),
        !off_grid(origin.x as int, origin.y as int),
        delta.is_step(),
        2 <= next <= reach(origin, delta) + 1,
    ensures
        poured(cells, now, origin, delta, next),
        total(now) == total(cells) - overflow(ray(cells, origin, delta), next - 1),
    decreases next,
{
    let row = ray(cells, origin, delta);
    lemma_ray_wf(cells, origin, delta);
    if next == 2 {
        let at = ray_index(origin, delta, 1);
        let now = cells.update(at, 0);
        lemma_ray_cell(origin, delta, 1);
        lemma_pour_start(cells, now, origin, delta);
        lemma_total_update(cells, at, 0);
        assert(row.subrange(1, 1) =~= Seq::<int>::empty());
        now
    } else {
        let at = ray_index(origin, delta, next - 1);
        let then = lemma_pour_all(cells, origin, delta, next - 1);
        let now = then.update(at, settled(row, next - 2));
        lemma_ray_cell(origin, delta, next - 1);
        lemma_pour_next(cells, then, origin, delta, next - 1);
        lemma_pour_step(cells, then, now, origin, delta, next - 1);
        assert(then.len() == CELLS) by {
            reveal(poured);
        }
        lemma_total_update(then, at, settled(row, next - 2));
        lemma_overflow_next(row, next - 2);
        now
    }
}

/// The state of the field in the middle of a push: the cells nearer than
/// `next` steps have settled, all others still hold what they held before.
#[verifier::opaque]
spec fn poured(before: Seq<int>, now: Seq<int>, origin: Point, delta: Point, next: int) -> bool {
    let row = ray(before, origin, delta);
    &&& now.len() == CELLS
    &&& forall|k: int|
        1 <= k < next && k <= row.len() ==> now[#[trigger] ray_index(origin, delta, k)]
            == settled(row, k - 1)
    &&& forall|k: int|
        next <= k <= row.len() ==> now[#[trigger] ray_index(origin, delta, k)] == row[k - 1]
    &&& forall|i: int|
        0 <= i < CELLS && !on_ray(origin, delta, i % (WIDTH as int), i / (WIDTH as int))
            ==> #[trigger] now[i] == before[i]
}

/// Lifting the first pile of the ray starts the push.
proof fn lemma_pour_start(before: Seq<int>, now: Seq<int>, origin: Point, delta: Point)
    requires
        before.len() == CELLS,
        !off_grid(origin.x as int, origin.y as int),
        delta.is_step(),
        reach(origin, delta) >= 1,
        now == before.update(ray_index(origin, delta, 1), 0),
    ensures
        poured(before, now, origin, delta, 2),
{
    reveal(poured);
    let row = ray(before, origin, delta);
    lemma_ray_cell(origin, delta, 1);
    assert forall|k: int| 2 <= k <= row.len() implies now[#[trigger] ray_index(origin, delta, k)]
        == row[k - 1] by {
        lemma_ray_cell(origin, delta, k);
    }
}

/// The cell that is next in line still holds what it held before the push.
proof fn lemma_pour_next(before: Seq<int>, now: Seq<int>, origin: Point, delta: Point, next: int)
    requires
        2 <= next <= reach(origin, delta),
        poured(before, now, origin, delta, next),
    ensures
        now[ray_index(origin, delta, next)] == ray(before, origin, delta)[next - 1],
{
    reveal(poured);
}

/// Letting the next cell settle carries the push one step further.
proof fn lemma_pour_step(
    before: Seq<int>,
    now: Seq<int>,
    then: Seq<int>,
    origin: Point,
    delta: Point,
    next: int,
)
    requires
        before.len() == CELLS,
        !off_grid(origin.x as int, origin.y as int),
        delta.is_step(),
        2 <= next <= reach(origin, delta),
        poured(before, now, origin, delta, next),
        then == now.update(
            ray_index(origin, delta, next),
            settled(ray(before, origin, delta), next - 1),
        ),
    ensures
        poured(before, then, origin, delta, next + 1),
{
    reveal(poured);
    let row = ray(before, origin, delta);
    let at = ray_index(origin, delta, next);
    lemma_ray_cell(origin, delta, next);
    assert forall|k: int| 1 <= k <= row.len() && k != next implies #[trigger] ray_index(
        origin,
        delta,
        k,
    ) != at by {
        lemma_ray_cell(origin, delta, k);
    }
}

/// Once nothing is left to pour, the field is the pushed field.
proof fn lemma_pour_done(before: Seq<int>, now: Seq<int>, origin: Point, delta: Point, last: int)
    requires
        before.len() == CELLS,
        heights_wf(before),
        !off_grid(origin.x as int, origin.y as int),
        delta.is_step(),
        1 <= last <= reach(origin, delta),
        poured(before, now, origin, delta, last + 1),
        overflow(ray(before, origin, delta), last) == 0,
    ensures
        now == pushed(before, origin, delta),
{
    reveal(poured);
    let row = ray(before, origin, delta);
    let goal = pushed(before, origin, delta);
    lemma_ray_wf(before, origin, delta);
    assert forall|i: int| 0 <= i < CELLS implies now[i] == goal[i] by {
        let x = i % (WIDTH as int);
        let y = i / (WIDTH as int);
        if on_ray(origin, delta, x, y) {
            lemma_on_ray(origin, delta, i);
            let k = steps_to(origin, delta, x, y);
            assert(ray_index(origin, delta, k) == i);
            if k > last {
                lemma_spare_grows(row, 1, last, k - 1);
                assert(row[k - 1] == settled(row, k - 1));
                assert(now[ray_index(origin, delta, k)] == row[k - 1]);
            } else {
                assert(now[ray_index(origin, delta, k)] == settled(row, k - 1));
            }
        }
    }
    assert(now =~= goal);
}

} // verus!
