//! A single snow pile: a counter bounded by [`MAX_SNOW_PILE`].

use vstd::prelude::*;

verus! {

/// The largest height a pile can reach.
pub const MAX_SNOW_PILE: i32 = 6;

/// A pile of snow, or an amount of snow in transit, measured in units.
#[derive(Debug, Copy, Clone, PartialEq, Eq, Structural, PartialOrd, Ord)]
pub struct Snow(pub i32);

/// The smaller of two integers.
pub open spec fn min_int(a: int, b: int) -> int {
    if a <= b {
        a
    } else {
        b
    }
}

impl View for Snow {
    type V = int;

    /// The height of the pile as a mathematical integer.
    open spec fn view(&self) -> int {
        self.0 as int
    }
}

impl Snow {
    /// A pile is well formed when its height lies in `0..=MAX_SNOW_PILE`.
    pub open spec fn wf(&self) -> bool {
        0 <= self.0 <= MAX_SNOW_PILE
    }

    /// How many more units fit on the pile.
    pub open spec fn room(&self) -> int {
        MAX_SNOW_PILE - self.0
    }

    /// True exactly when the pile holds no snow.
    pub fn is_clear(&self) -> (clear: bool)
        ensures
            clear == (self@ == 0),
    {
        self.0 == 0
    }

    /// True exactly when the pile has reached [`MAX_SNOW_PILE`].
    pub fn is_max_pile(&self) -> (full: bool)
        ensures
            full == (self@ == MAX_SNOW_PILE),
    {
        self.0 == MAX_SNOW_PILE
    }

    /// Adds one unit to a pile that is not yet full.
    pub fn pile_one(&mut self)
        requires
            old(self)@ < MAX_SNOW_PILE,
        ensures
            final(self)@ == old(self)@ + 1,
    {
        self.0 += 1;
    }

    /// Removes the whole pile and hands it to the caller.
    pub fn take_all(&mut self) -> (taken: Snow)
        ensures
            taken == *old(self),
            final(self)@ == 0,
    {
        let taken = *self;
        *self = Snow(0);
        taken
    }

    /// Moves as much of `snow` onto this pile as fits and returns the amount
    /// moved. Whatever does not fit stays in `snow`.
    pub fn take_needed(&mut self, snow: &mut Snow) -> (moved: i32)
        requires
            old(self).wf(),
            old(snow).wf(),
        ensures
            moved == min_int(old(snow)@, old(self).room()),
            final(self)@ == old(self)@ + moved,
            final(snow)@ == old(snow)@ - moved,
    {
        let room = MAX_SNOW_PILE - self.0;
        let moved = if snow.0 <= room {
            snow.0
        } else {
            room
        };
        self.0 += moved;
        snow.0 -= moved;
        moved
    }
}

} // verus!
