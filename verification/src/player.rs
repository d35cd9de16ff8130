//! The player's two actions: switching the tool and taking a step.

use vstd::prelude::*;
use crate::field::{cell_index, off_grid, out_of_bounds};
use crate::piles::{lemma_total_update, total};
use crate::point::{point_add, Point};
use crate::ray::{can_push, pushed, ray};
use crate::snow::{min_int, Snow, MAX_SNOW_PILE};
use crate::world::{ShovelState, Whiteout, World, PLOW_STRENGTH};

verus! {

impl ShovelState {
    /// The other tool.
    pub open spec fn other(self) -> ShovelState {
        match self {
            ShovelState::Plowing => ShovelState::Shoveling,
            ShovelState::Shoveling => ShovelState::Plowing,
        }
    }
}

impl World {
    /// All the snow of the world: what lies on the field and what is carried.
    pub open spec fn snow(self) -> int {
        total(self.cells) + self.carrying
    }

    /// The cell that a step of `delta` would lead to.
    pub open spec fn target(self, delta: Point) -> Point {
        Point { x: (self.player.x + delta.x) as i32, y: (self.player.y + delta.y) as i32 }
    }

    /// The world after the tool was switched: what is carried drops onto
    /// the player's own cell as far as it fits, the rest is lost.
    pub open spec fn flipped(self) -> World {
        let at = cell_index(self.player.x as int, self.player.y as int);
        let dropped = min_int(self.carrying, MAX_SNOW_PILE - self.cells[at]);
        World {
            cells: self.cells.update(at, self.cells[at] + dropped),
            player: self.player,
            shovel: self.shovel.other(),
            carrying: 0,
        }
    }

    /// The world after a step with the plow: if the pile ahead can be
    /// pushed, it is, and the player follows; otherwise nothing happens.
    pub open spec fn plowed(self, delta: Point) -> World {
        if can_push(ray(self.cells, self.player, delta), PLOW_STRENGTH as int) {
            World {
                cells: pushed(self.cells, self.player, delta),
                player: self.target(delta),
                shovel: self.shovel,
                carrying: self.carrying,
            }
        } else {
            self
        }
    }

    /// The world after a step with the shovel: onto a clear cell the player
    /// moves; before a pile the player stays and lifts it with empty hands,
    /// or drops onto it what fits of the carried snow.
    pub open spec fn shoveled(self, delta: Point) -> World {
        let target = self.target(delta);
        let at = cell_index(target.x as int, target.y as int);
        let height = self.cells[at];
        if height == 0 {
            World { cells: self.cells, player: target, shovel: self.shovel, carrying: self.carrying }
        } else if self.carrying == 0 {
            World {
                cells: self.cells.update(at, 0),
                player: self.player,
                shovel: self.shovel,
                carrying: height,
            }
        } else if height < MAX_SNOW_PILE {
            let dropped = min_int(self.carrying, MAX_SNOW_PILE - height);
            World {
                cells: self.cells.update(at, height + dropped),
                player: self.player,
                shovel: self.shovel,
                carrying: self.carrying - dropped,
            }
        } else {
            self
        }
    }

    /// The world after a step of `delta`: none off the grid, else what the
    /// tool in hand makes of it.
    pub open spec fn moved(self, delta: Point) -> World {
        if off_grid(self.player.x + delta.x, self.player.y + delta.y) {
            self
        } else {
            match self.shovel {
                ShovelState::Plowing => self.plowed(delta),
                ShovelState::Shoveling => self.shoveled(delta),
            }
        }
    }
}

impl Whiteout {
    /// Switches between plow and shovel. Carried snow is dropped onto the
    /// player's cell first; what does not fit there is lost.
    pub fn flip_shovel(&mut self)
        requires
            old(self).wf(),
        ensures
            final(self)@ == old(self)@.flipped(),
            final(self).wf(),
            final(self).carrying@ == 0,
    {
        let ghost before = self@;
        let ghost at = cell_index(self.player.x as int, self.player.y as int);
        if !self.carrying.is_clear() {
            let p = self.player;
            self.field.snow_at_mut(p.x, p.y).take_needed(&mut self.carrying);
            self.carrying = Snow(0);
        }
        self.shovel = match self.shovel {
            ShovelState::Shoveling => ShovelState::Plowing,
            ShovelState::Plowing => ShovelState::Shoveling,
        };
        assert(self@.cells =~= before.flipped().cells);
    }

    /// Takes a step of `delta`, as far as the tool in hand allows.
    pub fn move_player(&mut self, delta: Point)
        requires
            old(self).wf(),
            delta.is_step(),
        ensures
            final(self)@ == old(self)@.moved(delta),
            final(self).wf(),
            final(self)@.snow() == old(self)@.snow(),
    {
        let ghost before = self@;
        let target = point_add(self.player, delta);
        if out_of_bounds(target.x, target.y) {
            return ;
        }
        let ghost at = cell_index(target.x as int, target.y as int);
        self.player = match self.shovel {
            ShovelState::Plowing => {
                if self.can_push_snow(self.player, delta, PLOW_STRENGTH) {
                    let p = self.player;
                    self.push_snow(p, delta);
                    target
                } else {
                    self.player
                }
            },
            ShovelState::Shoveling => {
                if self.field.snow_at(target.x, target.y).is_clear() {
                    target
                } else {
                    if self.carrying.is_clear() {
                        self.carrying = self.field.snow_at_mut(target.x, target.y).take_all();
                        proof {
                            lemma_total_update(before.cells, at, 0);
                        }
                    } else if !self.field.snow_at(target.x, target.y).is_max_pile() {
                        self.field.snow_at_mut(target.x, target.y).take_needed(
                            &mut self.carrying,
                        );
                        proof {
                            lemma_total_update(before.cells, at, before.shoveled(delta).cells[at]);
                        }
                    }
                    self.player
                }
            },
        };
        assert(self@.cells =~= before.moved(delta).cells);
    }
}

} // verus!
