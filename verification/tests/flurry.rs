use whiteout::field::{HEIGHT, WIDTH};
use whiteout::flurry::{FLURRIES_AT_START, FLURRIES_PER_UPDATE, TRIES};
use whiteout::point::Point;
use whiteout::snow::Snow;
use whiteout::world::{ShovelState, Whiteout};

fn fallen(world: &Whiteout) -> i32 {
    world.field.piles.iter().map(|pile| pile.0).sum()
}

fn saturated_world() -> Whiteout {
    let mut world = Whiteout::new();
    for y in 0..HEIGHT {
        for x in 0..WIDTH {
            *world.field.snow_at_mut(x, y) = Snow(6);
        }
    }
    world
}

#[test]
fn snowfall_constants() {
    assert_eq!(TRIES, 60);
    assert_eq!(FLURRIES_PER_UPDATE, 20);
    assert_eq!(FLURRIES_AT_START, 5000);
}

#[test]
fn one_flurry_adds_one_unit_to_one_cell() {
    let mut world = Whiteout::new();
    world.flurry();
    assert_eq!(fallen(&world), 1);
    let changed = world.field.piles.iter().filter(|pile| pile.0 != 0).count();
    assert_eq!(changed, 1);
}

#[test]
fn flurry_never_lowers_a_pile() {
    let mut world = Whiteout::randomized();
    for _ in 0..200 {
        let before = world.field.piles;
        world.flurry();
        let mut grown = 0;
        for i in 0..before.len() {
            assert!(world.field.piles[i].0 >= before[i].0);
            assert!(world.field.piles[i].0 <= 6);
            grown += world.field.piles[i].0 - before[i].0;
        }
        assert_eq!(grown, 1);
    }
}

#[test]
fn flurry_leaves_player_tool_and_hands() {
    let mut world = Whiteout::new();
    world.shovel = ShovelState::Shoveling;
    world.carrying = Snow(4);
    world.player = Point::new(7, 3);
    world.flurry();
    world.update();
    assert_eq!(world.player, Point::new(7, 3));
    assert_eq!(world.shovel, ShovelState::Shoveling);
    assert_eq!(world.carrying, Snow(4));
}

#[test]
fn flurry_on_a_saturated_field_does_nothing() {
    let mut world = saturated_world();
    world.flurry();
    assert_eq!(fallen(&world), 6 * 80 * 24);
    assert!(world.field.piles.iter().all(|pile| pile.0 == 6));
}

#[test]
fn flurry_finds_the_only_free_cell() {
    let mut world = saturated_world();
    *world.field.snow_at_mut(79, 23) = Snow(5);
    world.flurry();
    assert_eq!(world.field.snow_at(79, 23), Snow(6));
    assert_eq!(fallen(&world), 6 * 80 * 24);
}

#[test]
fn flurry_fills_up_the_last_free_cells() {
    let mut world = saturated_world();
    *world.field.snow_at_mut(13, 7) = Snow(4);
    *world.field.snow_at_mut(60, 20) = Snow(5);
    world.flurry();
    assert_eq!(fallen(&world), 6 * 80 * 24 - 2);
    world.flurry();
    assert_eq!(fallen(&world), 6 * 80 * 24 - 1);
    world.flurry();
    assert_eq!(fallen(&world), 6 * 80 * 24);
    world.flurry();
    assert_eq!(fallen(&world), 6 * 80 * 24);
}

#[test]
fn update_adds_twenty_units() {
    let mut world = Whiteout::new();
    world.update();
    assert_eq!(fallen(&world), 20);
    world.update();
    assert_eq!(fallen(&world), 40);
    assert!(world.is_valid());
}

#[test]
fn update_stops_at_the_capacity() {
    let mut world = saturated_world();
    *world.field.snow_at_mut(0, 0) = Snow(0);
    *world.field.snow_at_mut(1, 0) = Snow(1);
    world.update();
    assert_eq!(fallen(&world), 6 * 80 * 24);
    assert!(world.is_valid());
}

#[test]
fn randomized_world_holds_five_thousand_units() {
    let world = Whiteout::randomized();
    assert_eq!(fallen(&world), 5000);
    assert!(world.is_valid());
    assert_eq!(world.player, Point::new(40, 12));
    assert_eq!(world.shovel, ShovelState::Plowing);
    assert_eq!(world.carrying, Snow(0));
}

#[test]
fn randomized_worlds_keep_every_pile_in_bounds() {
    let world = Whiteout::randomized();
    for pile in world.field.piles.iter() {
        assert!(0 <= pile.0 && pile.0 <= 6);
    }
}
