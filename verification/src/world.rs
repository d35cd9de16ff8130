//! The world: the field, the player and the tool in hand.

use vstd::prelude::*;
use crate::field::{off_grid, out_of_bounds, Snowfield, CELLS, HEIGHT, WIDTH};
use crate::piles::heights_wf;
use crate::point::Point;
use crate::snow::{Snow, MAX_SNOW_PILE};

verus! {

/// The tool that the player holds.
#[derive(Debug, Copy, Clone, PartialEq, Eq, Structural)]
pub enum ShovelState {
    /// Moving pushes the pile ahead onward along the line of the move.
    Plowing,
    /// Moving into a pile lifts it or drops carried snow onto it.
    Shoveling,
}

/// The number of full piles in a row that the plow can shift.
pub const PLOW_STRENGTH: i32 = 4;

/// The whole state of a game.
pub struct Whiteout {
    pub field: Snowfield,
    pub player: Point,
    pub shovel: ShovelState,
    pub carrying: Snow,
}

/// The state of a game as mathematics sees it: the heights of all cells in
/// row-major order, the player's position, the tool and the carried amount.
pub struct World {
    pub cells: Seq<int>,
    pub player: Point,
    pub shovel: ShovelState,
    pub carrying: int,
}

impl World {
    /// The invariant of every state that a game can reach: all heights and
    /// the carried amount are within bounds, the player stands on the grid,
    /// and snow is carried only with the shovel in hand.
    pub open spec fn wf(self) -> bool {
        &&& self.cells.len() == CELLS
        &&& heights_wf(self.cells)
        &&& !off_grid(self.player.x as int, self.player.y as int)
        &&& 0 <= self.carrying <= MAX_SNOW_PILE
        &&& (self.carrying > 0 ==> self.shovel == ShovelState::Shoveling)
    }
}

impl View for Whiteout {
    type V = World;

    open spec fn view(&self) -> World {
        World {
            cells: self.field@,
            player: self.player,
            shovel: self.shovel,
            carrying: self.carrying@,
        }
    }
}

impl Whiteout {
    /// The state satisfies the invariant of the game.
    pub open spec fn wf(&self) -> bool {
        self@.wf()
    }

    /// Tests the invariant of the game on this state.
    pub fn is_valid(&self) -> (valid: bool)
        ensures
            valid == self.wf(),
    {
        if out_of_bounds(self.player.x, self.player.y) {
            return false;
        }
        if self.carrying.0 < 0 || self.carrying.0 > MAX_SNOW_PILE {
            return false;
        }
        if self.carrying.0 > 0 && self.shovel != ShovelState::Shoveling {
            return false;
        }
        for i in 0..CELLS
            invariant
                forall|j: int| 0 <= j < i ==> 0 <= #[trigger] self@.cells[j] <= MAX_SNOW_PILE,
        {
            let pile = self.field.piles[i];
            assert(pile@ == self@.cells[i as int]);
            if pile.0 < 0 || pile.0 > MAX_SNOW_PILE {
                return false;
            }
        }
        true
    }

    /// An empty field with the player at its centre, plow in hand.
    pub fn new() -> (world: Whiteout)
        ensures
            world.wf(),
            forall|i: int| 0 <= i < CELLS ==> world@.cells[i] == 0,
            world.player.x == WIDTH / 2,
            world.player.y == HEIGHT / 2,
            world.shovel == ShovelState::Plowing,
            world.carrying@ == 0,
    {
        Whiteout {
            field: Snowfield::new(),
            player: Point::new(WIDTH / 2, HEIGHT / 2),
            shovel: ShovelState::Plowing,
            carrying: Snow(0),
        }
    }
}

} // verus!
