//! A session: what each event of the player does to the world, and what
//! has to be shown afterwards.

use vstd::prelude::*;
use crate::flurry::{snowfall, FLURRIES_PER_UPDATE};
use crate::point::Point;
use crate::render::{draw_models, frame, Draw};
use crate::world::{Whiteout, World};

verus! {

/// The keys that the game tells apart.
#[derive(Debug, Copy, Clone, PartialEq, Eq, Structural)]
pub enum Key {
    /// Switches the tool.
    Space,
    /// A step to the left.
    H,
    /// A step down.
    J,
    /// A step up.
    K,
    /// A step to the right.
    L,
    /// Any other key; it does nothing.
    Other,
}

/// What can happen to a running game.
#[derive(Debug, Copy, Clone, PartialEq, Eq, Structural)]
pub enum Event {
    /// The display was closed.
    Close,
    /// A key was pressed.
    KeyPressed(Key),
    /// Anything else; the player does nothing, but time goes on.
    Other,
}

/// The state of a session after an event.
#[derive(Debug, PartialEq, Eq)]
pub enum Session {
    /// The game goes on, and `frame` is to be shown.
    Running { frame: Vec<Draw> },
    /// The game is over.
    Closed,
}

impl Key {
    /// The step that the key stands for, if it stands for one. Rows are
    /// counted downwards, so a step down adds to `y`.
    pub open spec fn step(self) -> Option<Point> {
        match self {
            Key::H => Some(Point { x: -1i32, y: 0 }),
            Key::J => Some(Point { x: 0, y: 1 }),
            Key::K => Some(Point { x: 0, y: -1i32 }),
            Key::L => Some(Point { x: 1, y: 0 }),
            _ => None,
        }
    }

    /// The step that the key stands for, if it stands for one.
    pub fn direction(self) -> (delta: Option<Point>)
        ensures
            delta == self.step(),
            delta matches Some(d) ==> d.is_step(),
    {
        match self {
            Key::H => Some(Point::new(-1, 0)),
            Key::J => Some(Point::new(0, 1)),
            Key::K => Some(Point::new(0, -1)),
            Key::L => Some(Point::new(1, 0)),
            _ => None,
        }
    }
}

impl World {
    /// The world after a key was pressed, before any snow has fallen.
    pub open spec fn pressed(self, key: Key) -> World {
        match key {
            Key::Space => self.flipped(),
            _ => match key.step() {
                Some(delta) => self.moved(delta),
                None => self,
            },
        }
    }

    /// The world after the player's part in an event, before any snow has
    /// fallen.
    pub open spec fn acted(self, event: Event) -> World {
        match event {
            Event::KeyPressed(key) => self.pressed(key),
            _ => self,
        }
    }
}

impl Whiteout {
    /// Carries out the player's action for a key, if the key has one.
    pub fn press(&mut self, key: Key)
        requires
            old(self).wf(),
        ensures
            final(self)@ == old(self)@.pressed(key),
            final(self).wf(),
    {
        match key {
            Key::Space => self.flip_shovel(),
            _ => match key.direction() {
                Some(delta) => self.move_player(delta),
                None => {},
            },
        }
    }

    /// Takes one event of a running session. Closing ends the session and
    /// leaves the world as it is. After every other event, also one without
    /// a meaning, the player's action is followed by the snowfall of one
    /// turn, and the frame that shows the world after both is handed back.
    pub fn handle(&mut self, event: Event) -> (session: Session)
        requires
            old(self).wf(),
        ensures
            final(self).wf(),
            event is Close ==> session is Closed && final(self)@ == old(self)@,
            !(event is Close) ==> ({
                let acted = old(self)@.acted(event);
                &&& session matches Session::Running { frame: shown } && draw_models(shown@)
                    == frame(final(self)@)
                &&& snowfall(acted.cells, final(self)@.cells, FLURRIES_PER_UPDATE as int)
                &&& final(self).player == acted.player
                &&& final(self).shovel == acted.shovel
                &&& final(self)@.carrying == acted.carrying
            }),
    {
        match event {
            Event::Close => { return Session::Closed; },
            Event::KeyPressed(key) => self.press(key),
            Event::Other => {},
        }
        self.update();
        Session::Running { frame: self.print() }
    }
}

} // verus!
