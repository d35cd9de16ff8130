//! Snowfall: single flakes that land on piles which are not yet full.

use vstd::prelude::*;
use rand::{thread_rng, Rng};
use crate::field::{cell_index, off_grid, Snowfield, CELLS, HEIGHT, WIDTH};
use crate::piles::{
    heights_wf, lemma_total_bounds, lemma_total_empty, lemma_total_update, saturated, total,
};
use crate::snow::{min_int, MAX_SNOW_PILE};
use crate::world::{ShovelState, Whiteout};

verus! {

/// How many random cells a flake tries before it falls back on a scan.
pub const TRIES: i32 = 60;

/// How many flakes fall after each event.
pub const FLURRIES_PER_UPDATE: i32 = 20;

/// How many flakes fall on the empty field before a game starts.
pub const FLURRIES_AT_START: i32 = 5000;

/// A random integer in `0..bound`, drawn by `rand`'s `Rng::gen_range` from
/// the generator of the current thread, `thread_rng()`. `gen_range(low,
/// high)` returns a value in `[low, high)` and panics unless `low < high`;
/// the contract promises that range and nothing about which value comes.
#[verifier::external_body]
fn random_below(bound: i32) -> (drawn: i32)
    requires
        0 < bound,
    ensures
        0 <= drawn < bound,
{
    thread_rng().gen_range(0, bound)
}

/// The row `piles` with one more unit on the pile at place `i`.
pub open spec fn with_flake(piles: Seq<int>, i: int) -> Seq<int> {
    piles.update(i, piles[i] + 1)
}

/// The place of the first pile that is not full, or the length of the row
/// if every pile is full.
pub open spec fn first_free(piles: Seq<int>) -> int
    decreases piles.len(),
{
    if piles.len() == 0 {
        0
    } else if piles[0] < MAX_SNOW_PILE {
        0
    } else {
        1 + first_free(piles.drop_first())
    }
}

/// One flake has fallen between `before` and `after`: it lies on a pile
/// that had room for it, or the field was saturated and nothing changed.
pub open spec fn one_flake(before: Seq<int>, after: Seq<int>) -> bool {
    if saturated(before) {
        after == before
    } else {
        exists|i: int|
            0 <= i < before.len() && before[i] < MAX_SNOW_PILE && after == #[trigger] with_flake(
                before,
                i,
            )
    }
}

/// Between `before` and `after`, `flakes` flakes have fallen: no pile has
/// shrunk, none has grown beyond the maximum, and the total has grown by
/// the number of flakes, or up to the capacity of the field if that is less.
pub open spec fn snowfall(before: Seq<int>, after: Seq<int>, flakes: int) -> bool {
    &&& after.len() == before.len()
    &&& heights_wf(after)
    &&& forall|i: int| 0 <= i < before.len() ==> before[i] <= #[trigger] after[i]
    &&& total(after) == min_int(total(before) + flakes, MAX_SNOW_PILE * before.len())
}

/// The first free place is a place of the row that is not full, and all
/// places before it are full; if there is none, the row is saturated.
pub proof fn lemma_first_free(piles: Seq<int>)
    requires
        heights_wf(piles),
    ensures
        0 <= first_free(piles) <= piles.len(),
        forall|j: int| 0 <= j < first_free(piles) ==> #[trigger] piles[j] == MAX_SNOW_PILE,
        first_free(piles) < piles.len() ==> piles[first_free(piles)] < MAX_SNOW_PILE,
        first_free(piles) == piles.len() <==> saturated(piles),
    decreases piles.len(),
{
    if piles.len() > 0 && piles[0] >= MAX_SNOW_PILE {
        let rest = piles.drop_first();
        lemma_first_free(rest);
        assert forall|j: int| 0 <= j < first_free(piles) implies #[trigger] piles[j]
            == MAX_SNOW_PILE by {
            if j > 0 {
                assert(piles[j] == rest[j - 1]);
            }
        }
        if first_free(piles) < piles.len() {
            assert(piles[first_free(piles)] == rest[first_free(rest)]);
        }
        if saturated(piles) {
            assert forall|j: int| 0 <= j < rest.len() implies #[trigger] rest[j]
                == MAX_SNOW_PILE by {
                assert(rest[j] == piles[j + 1]);
            }
        }
    }
}

/// A single flake is a snowfall of one flake.
pub proof fn lemma_one_flake(before: Seq<int>, after: Seq<int>)
    requires
        heights_wf(before),
        one_flake(before, after),
    ensures
        snowfall(before, after, 1),
{
    lemma_total_bounds(before);
    if !saturated(before) {
        let i = choose|i: int|
            0 <= i < before.len() && before[i] < MAX_SNOW_PILE && after == #[trigger] with_flake(
                before,
                i,
            );
        lemma_total_update(before, i, before[i] + 1);
        lemma_total_bounds(after);
    }
}

/// Two snowfalls in a row are one snowfall of as many flakes as both.
pub proof fn lemma_snowfall_chain(
    before: Seq<int>,
    between: Seq<int>,
    after: Seq<int>,
    first: int,
    second: int,
)
    requires
        heights_wf(before),
        first >= 0,
        second >= 0,
        snowfall(before, between, first),
        snowfall(between, after, second),
    ensures
        snowfall(before, after, first + second),
{
    lemma_total_bounds(before);
    lemma_total_bounds(between);
}

impl Snowfield {
    /// Lets a flake fall on the cell `(x, y)`. It lands if the pile there is
    /// not full; otherwise nothing changes.
    pub fn settle(&mut self, x: i32, y: i32) -> (landed: bool)
        requires
            old(self).wf(),
            !off_grid(x as int, y as int),
        ensures
            landed == (old(self).height(x as int, y as int) < MAX_SNOW_PILE),
            landed ==> final(self)@ == with_flake(old(self)@, cell_index(x as int, y as int)),
            !landed ==> final(self)@ == old(self)@,
            final(self).wf(),
    {
        if !self.snow_at(x, y).is_max_pile() {
            self.snow_at_mut(x, y).pile_one();
            true
        } else {
            false
        }
    }

    /// Lets a flake fall on the first cell in row-major order whose pile is
    /// not full. On a saturated field nothing changes.
    pub fn settle_first(&mut self) -> (landed: bool)
        requires
            old(self).wf(),
        ensures
            landed == !saturated(old(self)@),
            landed ==> final(self)@ == with_flake(old(self)@, first_free(old(self)@)),
            !landed ==> final(self)@ == old(self)@,
            final(self).wf(),
    {
        let ghost before = self@;
        for y in 0..HEIGHT
            invariant
                before == old(self)@,
                self@ == before,
                self.wf(),
                forall|j: int| 0 <= j < y * WIDTH ==> #[trigger] before[j] == MAX_SNOW_PILE,
        {
            for x in 0..WIDTH
                invariant
                    0 <= y < HEIGHT,
                    before == old(self)@,
                    self@ == before,
                    self.wf(),
                    forall|j: int| 0 <= j < y * WIDTH + x ==> #[trigger] before[j] == MAX_SNOW_PILE,
            {
                if self.settle(x, y) {
                    proof {
                        lemma_first_free(before);
                        assert(before[cell_index(x as int, y as int)] < MAX_SNOW_PILE);
                    }
                    return true;
                }
            }
        }
        proof {
            lemma_first_free(before);
        }
        false
    }
}

impl Whiteout {
    /// Lets one flake fall. Up to [`TRIES`] cells are drawn at random, and
    /// the flake lands on the first of them that has room; if none has, it
    /// lands on the first cell of the field that has room, if there is one.
    pub fn flurry(&mut self)
        requires
            old(self).field.wf(),
        ensures
            one_flake(old(self)@.cells, final(self)@.cells),
            snowfall(old(self)@.cells, final(self)@.cells, 1),
            final(self).field.wf(),
            final(self).player == old(self).player,
            final(self).shovel == old(self).shovel,
            final(self).carrying == old(self).carrying,
            old(self).wf() ==> final(self).wf(),
    {
        let ghost before = self@;
        for tries in 0..TRIES
            invariant
                before == old(self)@,
                self@ == before,
                self.carrying == old(self).carrying,
                self.field.wf(),
        {
            let x = random_below(WIDTH);
            let y = random_below(HEIGHT);
            if self.field.settle(x, y) {
                proof {
                    let i = cell_index(x as int, y as int);
                    assert(before.cells[i] < MAX_SNOW_PILE);
                    assert(self@.cells == with_flake(before.cells, i));
                    lemma_one_flake(before.cells, self@.cells);
                }
                return ;
            }
        }
        let landed = self.field.settle_first();
        proof {
            lemma_first_free(before.cells);
            if landed {
                assert(self@.cells == with_flake(before.cells, first_free(before.cells)));
            }
            lemma_one_flake(before.cells, self@.cells);
        }
    }

    /// Lets the flakes of one turn fall, [`FLURRIES_PER_UPDATE`] of them.
    pub fn update(&mut self)
        requires
            old(self).field.wf(),
        ensures
            snowfall(old(self)@.cells, final(self)@.cells, FLURRIES_PER_UPDATE as int),
            final(self).field.wf(),
            final(self).player == old(self).player,
            final(self).shovel == old(self).shovel,
            final(self).carrying == old(self).carrying,
            old(self).wf() ==> final(self).wf(),
    {
        let ghost before = self@;
        proof {
            lemma_total_bounds(before.cells);
        }
        for fallen in 0..FLURRIES_PER_UPDATE
            invariant
                heights_wf(before.cells),
                before.cells.len() == CELLS,
                snowfall(before.cells, self@.cells, fallen as int),
                self.field.wf(),
                self.player == before.player,
                self.shovel == before.shovel,
                self.carrying@ == before.carrying,
        {
            let ghost between = self@.cells;
            self.flurry();
            proof {
                lemma_snowfall_chain(before.cells, between, self@.cells, fallen as int, 1);
            }
        }
    }

    /// A world at the start of a game: the player at the centre of a field
    /// on which [`FLURRIES_AT_START`] flakes have fallen.
    pub fn randomized() -> (world: Whiteout)
        ensures
            world.wf(),
            total(world@.cells) == FLURRIES_AT_START,
            world.player.x == WIDTH / 2,
            world.player.y == HEIGHT / 2,
            world.shovel == ShovelState::Plowing,
            world.carrying@ == 0,
    {
        let mut wo = Whiteout::new();
        let ghost empty = wo@;
        proof {
            lemma_total_bounds(empty.cells);
            lemma_total_empty(empty.cells);
        }
        for fallen in 0..FLURRIES_AT_START
            invariant
                heights_wf(empty.cells),
                empty.cells.len() == CELLS,
                total(empty.cells) == 0,
                snowfall(empty.cells, wo@.cells, fallen as int),
                wo.field.wf(),
                wo.player == empty.player,
                wo.shovel == empty.shovel,
                wo.carrying@ == empty.carrying,
        {
            let ghost between = wo@.cells;
            wo.flurry();
            proof {
                lemma_snowfall_chain(empty.cells, between, wo@.cells, fallen as int, 1);
            }
        }
        wo
    }
}

} // verus!
