use whiteout::point::Point;
use whiteout::render::Draw;
use whiteout::session::{Event, Key, Session};
use whiteout::snow::Snow;
use whiteout::world::{ShovelState, Whiteout};

fn snow_in(world: &Whiteout) -> i32 {
    world.field.piles.iter().map(|pile| pile.0).sum()
}

#[test]
fn keys_stand_for_steps() {
    assert_eq!(Key::H.direction(), Some(Point::new(-1, 0)));
    assert_eq!(Key::J.direction(), Some(Point::new(0, 1)));
    assert_eq!(Key::K.direction(), Some(Point::new(0, -1)));
    assert_eq!(Key::L.direction(), Some(Point::new(1, 0)));
    assert_eq!(Key::Space.direction(), None);
    assert_eq!(Key::Other.direction(), None);
}

#[test]
fn press_moves_along_the_key() {
    let mut world = Whiteout::new();
    world.press(Key::L);
    assert_eq!(world.player, Point::new(41, 12));
    world.press(Key::J);
    assert_eq!(world.player, Point::new(41, 13));
    world.press(Key::H);
    assert_eq!(world.player, Point::new(40, 13));
    world.press(Key::K);
    assert_eq!(world.player, Point::new(40, 12));
    assert_eq!(snow_in(&world), 0);
}

#[test]
fn press_space_switches_the_tool() {
    let mut world = Whiteout::new();
    world.press(Key::Space);
    assert_eq!(world.shovel, ShovelState::Shoveling);
    assert_eq!(world.player, Point::new(40, 12));
}

#[test]
fn press_of_another_key_does_nothing() {
    let mut world = Whiteout::new();
    *world.field.snow_at_mut(41, 12) = Snow(2);
    let before = world.field.piles;
    world.press(Key::Other);
    assert_eq!(world.field.piles, before);
    assert_eq!(world.player, Point::new(40, 12));
    assert_eq!(world.shovel, ShovelState::Plowing);
}

#[test]
fn close_ends_the_session_and_changes_nothing() {
    let mut world = Whiteout::new();
    *world.field.snow_at_mut(1, 1) = Snow(4);
    let before = world.field.piles;
    assert_eq!(world.handle(Event::Close), Session::Closed);
    assert_eq!(world.field.piles, before);
    assert_eq!(world.player, Point::new(40, 12));
    assert_eq!(world.shovel, ShovelState::Plowing);
}

#[test]
fn key_is_followed_by_snowfall_and_a_frame() {
    let mut world = Whiteout::new();
    let session = world.handle(Event::KeyPressed(Key::L));
    assert_eq!(world.player, Point::new(41, 12));
    assert_eq!(snow_in(&world), 20);
    match session {
        Session::Running { frame } => {
            assert_eq!(frame, world.print());
            assert_eq!(frame[3841], Draw::Print { x: 41, y: 12, text: String::from("@") });
        },
        Session::Closed => panic!("the session goes on after a key"),
    }
}

#[test]
fn ignored_events_still_let_it_snow() {
    let mut world = Whiteout::new();
    let session = world.handle(Event::Other);
    assert_eq!(world.player, Point::new(40, 12));
    assert_eq!(snow_in(&world), 20);
    assert!(matches!(session, Session::Running { .. }));
    let session = world.handle(Event::KeyPressed(Key::Other));
    assert_eq!(world.player, Point::new(40, 12));
    assert_eq!(world.shovel, ShovelState::Plowing);
    assert_eq!(snow_in(&world), 40);
    assert!(matches!(session, Session::Running { .. }));
}

#[test]
fn space_event_switches_the_tool_before_the_snow_falls() {
    let mut world = Whiteout::new();
    world.shovel = ShovelState::Shoveling;
    world.carrying = Snow(6);
    world.handle(Event::KeyPressed(Key::Space));
    assert_eq!(world.shovel, ShovelState::Plowing);
    assert_eq!(world.carrying, Snow(0));
    assert_eq!(world.field.snow_at(40, 12), Snow(6));
    assert_eq!(snow_in(&world), 26);
}

#[test]
fn session_keeps_the_invariant() {
    let mut world = Whiteout::randomized();
    let keys = [Key::L, Key::Space, Key::L, Key::J, Key::Space, Key::H, Key::K, Key::Other];
    for round in 0..64 {
        let session = world.handle(Event::KeyPressed(keys[round % keys.len()]));
        assert!(matches!(session, Session::Running { .. }));
        assert!(world.is_valid());
    }
    assert_eq!(world.handle(Event::Close), Session::Closed);
    assert!(world.is_valid());
}
