//! The snow field: a fixed grid of piles stored row by row.

use vstd::prelude::*;
use crate::piles::heights_wf;
use crate::snow::{Snow, MAX_SNOW_PILE};

verus! {

/// Number of columns of the field.
pub const WIDTH: i32 = 80;

/// Number of rows of the field.
pub const HEIGHT: i32 = 24;

/// Number of rows below the field that hold the status line.
pub const STATUS_HEIGHT: i32 = 1;

/// Number of cells of the field, `WIDTH * HEIGHT`.
pub const CELLS: usize = 1920;

/// A coordinate pair lies off the grid when either component leaves its range.
pub open spec fn off_grid(x: int, y: int) -> bool {
    x < 0 || x >= WIDTH || y < 0 || y >= HEIGHT
}

/// Position of the cell `(x, y)` in row-major order.
pub open spec fn cell_index(x: int, y: int) -> int {
    y * WIDTH + x
}

/// True exactly when `(x, y)` names no cell of the field.
pub fn out_of_bounds(x: i32, y: i32) -> (out: bool)
    ensures
        out == off_grid(x as int, y as int),
{
    x < 0 || x >= WIDTH || y < 0 || y >= HEIGHT
}

/// The grid of piles.
pub struct Snowfield {
    pub piles: [Snow; CELLS],
}

impl View for Snowfield {
    type V = Seq<int>;

    /// The heights of all cells in row-major order.
    open spec fn view(&self) -> Seq<int> {
        Seq::new(CELLS as nat, |i: int| self.piles[i]@)
    }
}

impl Snowfield {
    /// Every pile of the field is well formed.
    pub open spec fn wf(&self) -> bool {
        heights_wf(self@)
    }

    /// Height of the pile at `(x, y)`.
    pub open spec fn height(&self, x: int, y: int) -> int
        recommends
            !off_grid(x, y),
    {
        self@[cell_index(x, y)]
    }

    /// The field `after` is this field with the pile at place `i` replaced.
    pub open spec fn replaced(self, after: Snowfield, i: int, pile: Snow) -> bool {
        after.piles@ == self.piles@.update(i, pile)
    }

    /// Replacing one pile changes the height of its cell and of no other.
    proof fn lemma_view_update(self, after: Snowfield, i: int, pile: Snow)
        requires
            0 <= i < CELLS,
            self.replaced(after, i, pile),
        ensures
            after@ == self@.update(i, pile@),
            self.wf() && pile.wf() ==> after.wf(),
    {
        assert(after@ =~= self@.update(i, pile@)) by {
            assert forall|j: int| 0 <= j < CELLS implies after@[j] == self@.update(i, pile@)[j] by {
                assert(after.piles[j] == after.piles@[j]);
                assert(self.piles[j] == self.piles@[j]);
            }
        }
        if self.wf() && pile.wf() {
            assert forall|j: int| 0 <= j < CELLS implies 0 <= #[trigger] after@[j]
                <= MAX_SNOW_PILE by {
                assert(after@[j] == self@.update(i, pile@)[j]);
            }
        }
    }

    /// A field without any snow.
    pub fn new() -> (field: Snowfield)
        ensures
            field.wf(),
            forall|i: int| 0 <= i < CELLS ==> field@[i] == 0,
    {
        Snowfield { piles: [Snow(0); CELLS] }
    }

    /// The pile at `(x, y)`.
    pub fn snow_at(&self, x: i32, y: i32) -> (pile: Snow)
        requires
            !off_grid(x as int, y as int),
        ensures
            pile == self.piles[cell_index(x as int, y as int)],
            pile@ == self.height(x as int, y as int),
            self.wf() ==> pile.wf(),
    {
        self.piles[y as usize * WIDTH as usize + x as usize]
    }

    /// Mutable access to the pile at `(x, y)`; no other pile can change
    /// through the returned reference.
    pub fn snow_at_mut(&mut self, x: i32, y: i32) -> (pile: &mut Snow)
        requires
            !off_grid(x as int, y as int),
        ensures
            *pile == old(self).piles[cell_index(x as int, y as int)],
            pile@ == old(self).height(x as int, y as int),
            old(self).wf() ==> pile.wf(),
            old(self).replaced(*final(self), cell_index(x as int, y as int), *final(pile)),
            final(self)@ == old(self)@.update(cell_index(x as int, y as int), final(pile)@),
            old(self).wf() && final(pile).wf() ==> final(self).wf(),
    {
        let ghost before = *self;
        let ghost at = cell_index(x as int, y as int);
        assert(before.piles[at]@ == before@[at]);
        assert forall|after: Snowfield, pile: Snow| #[trigger]
            before.replaced(after, at, pile) implies {
            &&& after@ == before@.update(at, pile@)
            &&& before.wf() && pile.wf() ==> after.wf()
        } by {
            before.lemma_view_update(after, at, pile);
        }
        &mut self.piles[y as usize * WIDTH as usize + x as usize]
    }
}

} // verus!
