//! What holds of every game: the invariant that each action keeps, the
//! conservation of snow, and how the tools behave at their limits.

use vstd::prelude::*;
use crate::field::{cell_index, off_grid};
use crate::piles::{heights_wf, lemma_total_bounds, lemma_total_update, saturated};
use crate::point::Point;
use crate::push::{lemma_pushed_total, lemma_pushed_wf};
use crate::ray::{can_push, ray};
use crate::session::Key;
use crate::snow::{min_int, MAX_SNOW_PILE};
use crate::world::{ShovelState, World, PLOW_STRENGTH};

verus! {

/// Switching the tool keeps the invariant of the game and leaves the
/// player's hands empty, whichever tool was held.
pub proof fn lemma_flip_keeps_invariant(world: World)
    requires
        world.wf(),
    ensures
        world.flipped().wf(),
        world.flipped().carrying == 0,
{
}

/// Switching the tool twice in a row brings the first tool back, with empty
/// hands; the second switch changes nothing on the field.
pub proof fn lemma_flip_twice(world: World)
    requires
        world.wf(),
    ensures
        world.flipped().flipped().shovel == world.shovel,
        world.flipped().flipped().carrying == 0,
        world.flipped().flipped().player == world.player,
        world.flipped().flipped().cells == world.flipped().cells,
{
    assert(world.flipped().flipped().cells =~= world.flipped().cells);
}

/// A step keeps the invariant of the game: all heights and the carried
/// amount stay within bounds, the player stays on the grid, and snow is
/// carried only with the shovel in hand.
pub proof fn lemma_move_keeps_invariant(world: World, delta: Point)
    requires
        world.wf(),
        delta.is_step(),
    ensures
        world.moved(delta).wf(),
{
    lemma_pushed_wf(world.cells, world.player, delta);
}

/// A step neither adds snow to the world nor loses any: what leaves a pile
/// arrives on other piles or in the player's hands, and what leaves the
/// hands arrives on a pile.
pub proof fn lemma_move_conserves_snow(world: World, delta: Point)
    requires
        world.wf(),
        delta.is_step(),
    ensures
        world.moved(delta).snow() == world.snow(),
{
    let target = world.target(delta);
    if !off_grid(target.x as int, target.y as int) {
        let at = cell_index(target.x as int, target.y as int);
        match world.shovel {
            ShovelState::Plowing => {
                if can_push(ray(world.cells, world.player, delta), PLOW_STRENGTH as int) {
                    lemma_pushed_total(world.cells, world.player, delta);
                }
            },
            ShovelState::Shoveling => {
                lemma_total_update(world.cells, at, world.moved(delta).cells[at]);
                assert(world.moved(delta).cells =~= world.cells.update(
                    at,
                    world.moved(delta).cells[at],
                ));
            },
        }
    }
}

/// With the plow in hand, a step whose push is not possible changes nothing.
pub proof fn lemma_blocked_plow_stays(world: World, delta: Point)
    requires
        world.shovel == ShovelState::Plowing,
        !can_push(ray(world.cells, world.player, delta), PLOW_STRENGTH as int),
    ensures
        world.moved(delta) == world,
{
}

/// A ray of full piles cannot be pushed, whatever the strength: its snow
/// would have to leave the grid.
pub proof fn lemma_full_ray_blocks(row: Seq<int>, strength: int)
    requires
        saturated(row),
    ensures
        !can_push(row, strength),
{
    if row.len() >= 2 {
        let between = row.subrange(1, row.len() - 1);
        assert(heights_wf(between) && saturated(between)) by {
            assert forall|i: int| 0 <= i < between.len() implies #[trigger] between[i]
                == MAX_SNOW_PILE by {
                assert(between[i] == row[i + 1]);
            }
        }
        lemma_total_bounds(between);
        assert(row[0] == MAX_SNOW_PILE);
    }
}

/// With the shovel in hand, a step onto a clear cell moves the player and
/// changes neither the field nor what is carried.
pub proof fn lemma_shovel_steps_onto_clear(world: World, delta: Point)
    requires
        world.wf(),
        delta.is_step(),
        world.shovel == ShovelState::Shoveling,
        !off_grid(world.player.x + delta.x, world.player.y + delta.y),
        world.cells[cell_index(world.player.x + delta.x, world.player.y + delta.y)] == 0,
    ensures
        world.moved(delta).player == world.target(delta),
        world.moved(delta).carrying == world.carrying,
        world.moved(delta).cells == world.cells,
        world.moved(delta).shovel == world.shovel,
{
}

/// With the shovel in empty hands, a step into a pile lifts the whole pile:
/// the player stays, the cell is cleared, and its height is what is carried.
pub proof fn lemma_shovel_lifts(world: World, delta: Point)
    requires
        world.wf(),
        delta.is_step(),
        world.shovel == ShovelState::Shoveling,
        !off_grid(world.player.x + delta.x, world.player.y + delta.y),
        world.cells[cell_index(world.player.x + delta.x, world.player.y + delta.y)] > 0,
        world.carrying == 0,
    ensures
        world.moved(delta).player == world.player,
        world.moved(delta).carrying == world.cells[cell_index(
            world.player.x + delta.x,
            world.player.y + delta.y,
        )],
        world.moved(delta).cells == world.cells.update(
            cell_index(world.player.x + delta.x, world.player.y + delta.y),
            0,
        ),
        world.moved(delta).shovel == world.shovel,
{
}

/// With snow on the shovel, a step into a pile that is neither clear nor
/// full drops onto it what fits: the pile grows to the maximum at most, the
/// carried amount shrinks by what the pile has gained, the player stays.
pub proof fn lemma_shovel_drops(world: World, delta: Point)
    requires
        world.wf(),
        delta.is_step(),
        world.shovel == ShovelState::Shoveling,
        !off_grid(world.player.x + delta.x, world.player.y + delta.y),
        0 < world.cells[cell_index(world.player.x + delta.x, world.player.y + delta.y)]
            < MAX_SNOW_PILE,
        world.carrying > 0,
    ensures
        ({
            let at = cell_index(world.player.x + delta.x, world.player.y + delta.y);
            let after = world.moved(delta);
            &&& after.player == world.player
            &&& after.shovel == world.shovel
            &&& after.cells[at] == min_int(world.cells[at] + world.carrying, MAX_SNOW_PILE as int)
            &&& after.carrying == world.carrying - (after.cells[at] - world.cells[at])
            &&& after.cells == world.cells.update(at, after.cells[at])
        }),
{
}

/// With snow on the shovel, a step into a full pile changes nothing.
pub proof fn lemma_shovel_before_full_pile(world: World, delta: Point)
    requires
        world.wf(),
        delta.is_step(),
        world.shovel == ShovelState::Shoveling,
        !off_grid(world.player.x + delta.x, world.player.y + delta.y),
        world.cells[cell_index(world.player.x + delta.x, world.player.y + delta.y)]
            == MAX_SNOW_PILE,
        world.carrying > 0,
    ensures
        world.moved(delta) == world,
{
}

/// Whatever key is pressed, the invariant of the game holds afterwards.
pub proof fn lemma_press_keeps_invariant(world: World, key: Key)
    requires
        world.wf(),
    ensures
        world.pressed(key).wf(),
{
    match key.step() {
        Some(delta) => {
            lemma_move_keeps_invariant(world, delta);
        },
        None => {},
    }
}

} // verus!
