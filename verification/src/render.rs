//! Presentation: the world as a list of commands for a display of glyph
//! cells.
//!
//! Nothing is drawn here. [`Whiteout::print`] returns the commands in the
//! order in which a display has to carry them out.

use vstd::prelude::*;
use crate::field::{HEIGHT, WIDTH};
use crate::snow::Snow;
use crate::world::{ShovelState, Whiteout, World};

verus! {

/// The colours that the game draws with.
#[derive(Debug, Copy, Clone, PartialEq, Eq, Structural)]
pub enum Color {
    Black,
    White,
    Red,
}

impl Color {
    /// The red, green, blue and alpha channels of the colour.
    pub open spec fn channels(self) -> (u8, u8, u8, u8) {
        match self {
            Color::Black => (0, 0, 0, 255),
            Color::White => (255, 255, 255, 255),
            Color::Red => (255, 0, 0, 255),
        }
    }

    /// The red, green, blue and alpha channels of the colour.
    pub fn rgba(self) -> (channels: (u8, u8, u8, u8))
        ensures
            channels == self.channels(),
    {
        match self {
            Color::Black => (0, 0, 0, 255),
            Color::White => (255, 255, 255, 255),
            Color::Red => (255, 0, 0, 255),
        }
    }
}

/// The glyph that shows a pile of the given height.
pub open spec fn glyph_of(height: int) -> char {
    if height == 1 {
        '.'
    } else if height == 2 {
        '-'
    } else if height == 3 {
        ':'
    } else if height == 4 {
        '+'
    } else if height == 5 {
        '*'
    } else if height == 6 {
        '#'
    } else {
        ' '
    }
}

/// The colour in which a pile of the given height is drawn.
pub open spec fn color_of(height: int) -> Color {
    if height == 0 {
        Color::Black
    } else {
        Color::White
    }
}

impl Snow {
    /// The glyph that shows this pile.
    pub fn glyph(&self) -> (glyph: char)
        requires
            self.wf(),
        ensures
            glyph == glyph_of(self@),
    {
        match self.0 {
            1 => '.',
            2 => '-',
            3 => ':',
            4 => '+',
            5 => '*',
            6 => '#',
            _ => ' ',
        }
    }

    /// The colour in which this pile is drawn.
    pub fn color(&self) -> (color: Color)
        requires
            self.wf(),
        ensures
            color == color_of(self@),
    {
        match self.0 {
            0 => Color::Black,
            _ => Color::White,
        }
    }
}

impl ShovelState {
    /// The two characters that stand for the tool on the status line.
    pub open spec fn label_text(self) -> Seq<char> {
        match self {
            ShovelState::Plowing => seq!['\\', '_'],
            ShovelState::Shoveling => seq!['-', '>'],
        }
    }

    /// The two characters that stand for the tool on the status line.
    pub fn label(&self) -> (label: &'static str)
        ensures
            label@ == self.label_text(),
    {
        proof {
            reveal_strlit("\\_");
            reveal_strlit("->");
        }
        match self {
            ShovelState::Plowing => {
                assert("\\_"@ =~= seq!['\\', '_']);
                "\\_"
            },
            ShovelState::Shoveling => {
                assert("->"@ =~= seq!['-', '>']);
                "->"
            },
        }
    }
}

/// One command for the display.
#[derive(Debug, PartialEq, Eq)]
pub enum Draw {
    /// Draw what follows in this foreground on this background.
    Colors { fg: Color, bg: Color },
    /// Write one glyph into the cell `(x, y)`.
    Put { x: i32, y: i32, glyph: char },
    /// Write a text into the cells from `(x, y)` to the right.
    Print { x: i32, y: i32, text: String },
}

/// A command for the display, its text taken as a sequence of characters.
pub enum DrawModel {
    Colors { fg: Color, bg: Color },
    Put { x: int, y: int, glyph: char },
    Print { x: int, y: int, text: Seq<char> },
}

impl View for Draw {
    type V = DrawModel;

    open spec fn view(&self) -> DrawModel {
        match *self {
            Draw::Colors { fg, bg } => DrawModel::Colors { fg, bg },
            Draw::Put { x, y, glyph } => DrawModel::Put { x: x as int, y: y as int, glyph },
            Draw::Print { x, y, text } => DrawModel::Print { x: x as int, y: y as int, text: text@ },
        }
    }
}

/// A list of commands, each taken by its model.
pub open spec fn draw_models(commands: Seq<Draw>) -> Seq<DrawModel> {
    Seq::new(commands.len(), |i: int| commands[i]@)
}

/// The commands that draw the field: for each cell in row-major order, the
/// colour of its pile and then its glyph.
pub open spec fn field_frame(cells: Seq<int>) -> Seq<DrawModel> {
    Seq::new(
        2 * cells.len(),
        |i: int|
            {
                let cell = i / 2;
                if i % 2 == 0 {
                    DrawModel::Colors { fg: color_of(cells[cell]), bg: Color::Black }
                } else {
                    DrawModel::Put {
                        x: cell % (WIDTH as int),
                        y: cell / (WIDTH as int),
                        glyph: glyph_of(cells[cell]),
                    }
                }
            },
    )
}

/// The text of the status line: the tool, and a star while snow is carried.
pub open spec fn status_text(shovel: ShovelState, carrying: int) -> Seq<char> {
    "shovel: "@ + shovel.label_text() + seq![
        if carrying > 0 {
            '*'
        } else {
            ' '
        },
    ]
}

/// The commands that draw the player, white while snow is carried and red
/// otherwise, and then the status line in white below the field.
pub open spec fn status_frame(world: World) -> Seq<DrawModel> {
    seq![
        DrawModel::Colors {
            fg: if world.carrying > 0 {
                Color::White
            } else {
                Color::Red
            },
            bg: Color::Black,
        },
        DrawModel::Print { x: world.player.x as int, y: world.player.y as int, text: "@"@ },
        DrawModel::Colors { fg: Color::White, bg: Color::Black },
        DrawModel::Print {
            x: 0,
            y: HEIGHT as int,
            text: status_text(world.shovel, world.carrying),
        },
    ]
}

/// All the commands that draw the world.
pub open spec fn frame(world: World) -> Seq<DrawModel> {
    field_frame(world.cells) + status_frame(world)
}

impl Whiteout {
    /// The commands that draw the world: the field, the player, the status
    /// line. The result depends on the world alone.
    pub fn print(&self) -> (commands: Vec<Draw>)
        requires
            self.wf(),
        ensures
            draw_models(commands@) == frame(self@),
    {
        let mut commands: Vec<Draw> = Vec::new();
        for y in 0..HEIGHT
            invariant
                self.wf(),
                commands@.len() == 2 * (y * WIDTH),
                forall|i: int|
                    0 <= i < commands@.len() ==> (#[trigger] commands@[i])@ == field_frame(
                        self@.cells,
                    )[i],
        {
            for x in 0..WIDTH
                invariant
                    0 <= y < HEIGHT,
                    self.wf(),
                    commands@.len() == 2 * (y * WIDTH + x),
                    forall|i: int|
                        0 <= i < commands@.len() ==> (#[trigger] commands@[i])@ == field_frame(
                            self@.cells,
                        )[i],
            {
                let snow = self.field.snow_at(x, y);
                commands.push(Draw::Colors { fg: snow.color(), bg: Color::Black });
                commands.push(Draw::Put { x, y, glyph: snow.glyph() });
            }
        }
        let holding = !self.carrying.is_clear();
        commands.push(
            Draw::Colors {
                fg: if holding {
                    Color::White
                } else {
                    Color::Red
                },
                bg: Color::Black,
            },
        );
        commands.push(Draw::Print { x: self.player.x, y: self.player.y, text: String::from_str("@") });
        commands.push(Draw::Colors { fg: Color::White, bg: Color::Black });
        let mut status = String::from_str("shovel: ");
        status.append(self.shovel.label());
        status.append(
            if holding {
                "*"
            } else {
                " "
            },
        );
        proof {
            reveal_strlit("*");
            reveal_strlit(" ");
            assert("*"@ =~= seq!['*']);
            assert(" "@ =~= seq![' ']);
        }
        commands.push(Draw::Print { x: 0, y: HEIGHT, text: status });
        assert(draw_models(commands@) =~= frame(self@));
        commands
    }
}

} // verus!
