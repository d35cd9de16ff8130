use whiteout::point::Point;
use whiteout::render::{Color, Draw};
use whiteout::snow::Snow;
use whiteout::world::{ShovelState, Whiteout};

fn status_of(world: &Whiteout) -> String {
    match world.print().pop() {
        Some(Draw::Print { x: 0, y: 24, text }) => text,
        other => panic!("no status line at the end: {:?}", other),
    }
}

#[test]
fn labels_of_the_tools() {
    assert_eq!(ShovelState::Plowing.label(), "\\_");
    assert_eq!(ShovelState::Shoveling.label(), "->");
}

#[test]
fn frame_has_two_commands_per_cell_and_four_more() {
    let world = Whiteout::new();
    assert_eq!(world.print().len(), 2 * 80 * 24 + 4);
}

#[test]
fn frame_draws_the_cells_row_by_row() {
    let mut world = Whiteout::new();
    *world.field.snow_at_mut(0, 0) = Snow(1);
    *world.field.snow_at_mut(1, 0) = Snow(6);
    *world.field.snow_at_mut(0, 1) = Snow(3);
    *world.field.snow_at_mut(79, 23) = Snow(5);
    let frame = world.print();
    assert_eq!(frame[0], Draw::Colors { fg: Color::White, bg: Color::Black });
    assert_eq!(frame[1], Draw::Put { x: 0, y: 0, glyph: '.' });
    assert_eq!(frame[2], Draw::Colors { fg: Color::White, bg: Color::Black });
    assert_eq!(frame[3], Draw::Put { x: 1, y: 0, glyph: '#' });
    assert_eq!(frame[4], Draw::Colors { fg: Color::Black, bg: Color::Black });
    assert_eq!(frame[5], Draw::Put { x: 2, y: 0, glyph: ' ' });
    assert_eq!(frame[160], Draw::Colors { fg: Color::White, bg: Color::Black });
    assert_eq!(frame[161], Draw::Put { x: 0, y: 1, glyph: ':' });
    assert_eq!(frame[3838], Draw::Colors { fg: Color::White, bg: Color::Black });
    assert_eq!(frame[3839], Draw::Put { x: 79, y: 23, glyph: '*' });
}

#[test]
fn frame_ends_with_player_and_status_line() {
    let world = Whiteout::new();
    let frame = world.print();
    assert_eq!(frame[3840], Draw::Colors { fg: Color::Red, bg: Color::Black });
    assert_eq!(frame[3841], Draw::Print { x: 40, y: 12, text: String::from("@") });
    assert_eq!(frame[3842], Draw::Colors { fg: Color::White, bg: Color::Black });
    assert_eq!(frame[3843], Draw::Print { x: 0, y: 24, text: String::from("shovel: \\_ ") });
}

#[test]
fn player_is_white_while_carrying() {
    let mut world = Whiteout::new();
    world.shovel = ShovelState::Shoveling;
    world.carrying = Snow(2);
    world.player = Point::new(3, 4);
    let frame = world.print();
    assert_eq!(frame[3840], Draw::Colors { fg: Color::White, bg: Color::Black });
    assert_eq!(frame[3841], Draw::Print { x: 3, y: 4, text: String::from("@") });
    assert_eq!(frame[3842], Draw::Colors { fg: Color::White, bg: Color::Black });
    assert_eq!(frame[3843], Draw::Print { x: 0, y: 24, text: String::from("shovel: ->*") });
}

#[test]
fn status_line_names_tool_and_load() {
    let mut world = Whiteout::new();
    assert_eq!(status_of(&world), "shovel: \\_ ");
    world.flip_shovel();
    assert_eq!(status_of(&world), "shovel: -> ");
    world.carrying = Snow(1);
    assert_eq!(status_of(&world), "shovel: ->*");
}

#[test]
fn printing_twice_gives_the_same_frame() {
    let world = Whiteout::randomized();
    let first = world.print();
    let second = world.print();
    assert_eq!(first, second);
    assert!(world.is_valid());
}

#[test]
fn printing_does_not_change_the_world() {
    let world = Whiteout::randomized();
    let before = world.field.piles;
    world.print();
    assert_eq!(world.field.piles, before);
    assert_eq!(world.player, Point::new(40, 12));
}
