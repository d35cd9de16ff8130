use whiteout::render::Color;
use whiteout::snow::{Snow, MAX_SNOW_PILE};

#[test]
fn clear_pile_is_clear_and_not_full() {
    let pile = Snow(0);
    assert!(pile.is_clear());
    assert!(!pile.is_max_pile());
}

#[test]
fn full_pile_is_full_and_not_clear() {
    let pile = Snow(MAX_SNOW_PILE);
    assert!(pile.is_max_pile());
    assert!(!pile.is_clear());
}

#[test]
fn middling_pile_is_neither_clear_nor_full() {
    for height in 1..MAX_SNOW_PILE {
        let pile = Snow(height);
        assert!(!pile.is_clear());
        assert!(!pile.is_max_pile());
    }
}

#[test]
fn maximum_is_six() {
    assert_eq!(MAX_SNOW_PILE, 6);
}

#[test]
fn pile_one_adds_one_unit() {
    let mut pile = Snow(0);
    for expected in 1..=6 {
        pile.pile_one();
        assert_eq!(pile, Snow(expected));
    }
    assert!(pile.is_max_pile());
}

#[test]
fn take_all_hands_out_the_pile_and_clears_it() {
    let mut pile = Snow(4);
    let taken = pile.take_all();
    assert_eq!(taken, Snow(4));
    assert_eq!(pile, Snow(0));
}

#[test]
fn take_all_of_a_clear_pile_is_nothing() {
    let mut pile = Snow(0);
    assert_eq!(pile.take_all(), Snow(0));
    assert_eq!(pile, Snow(0));
}

#[test]
fn take_needed_moves_all_when_it_fits() {
    let mut pile = Snow(1);
    let mut carried = Snow(2);
    assert_eq!(pile.take_needed(&mut carried), 2);
    assert_eq!(pile, Snow(3));
    assert_eq!(carried, Snow(0));
}

#[test]
fn take_needed_stops_at_the_maximum() {
    let mut pile = Snow(4);
    let mut carried = Snow(5);
    assert_eq!(pile.take_needed(&mut carried), 2);
    assert_eq!(pile, Snow(6));
    assert_eq!(carried, Snow(3));
}

#[test]
fn take_needed_fills_exactly() {
    let mut pile = Snow(2);
    let mut carried = Snow(4);
    assert_eq!(pile.take_needed(&mut carried), 4);
    assert_eq!(pile, Snow(6));
    assert_eq!(carried, Snow(0));
}

#[test]
fn take_needed_on_a_full_pile_moves_nothing() {
    let mut pile = Snow(6);
    let mut carried = Snow(3);
    assert_eq!(pile.take_needed(&mut carried), 0);
    assert_eq!(pile, Snow(6));
    assert_eq!(carried, Snow(3));
}

#[test]
fn take_needed_of_nothing_moves_nothing() {
    let mut pile = Snow(2);
    let mut carried = Snow(0);
    assert_eq!(pile.take_needed(&mut carried), 0);
    assert_eq!(pile, Snow(2));
    assert_eq!(carried, Snow(0));
}

#[test]
fn take_needed_never_overfills_and_conserves() {
    for height in 0..=6 {
        for amount in 0..=6 {
            let mut pile = Snow(height);
            let mut carried = Snow(amount);
            let moved = pile.take_needed(&mut carried);
            assert_eq!(moved, amount.min(6 - height));
            assert!(pile.0 <= 6);
            assert!(carried.0 >= 0);
            assert_eq!(pile.0 + carried.0, height + amount);
        }
    }
}

#[test]
fn glyphs_follow_the_height() {
    let glyphs = [' ', '.', '-', ':', '+', '*', '#'];
    for height in 0..=6 {
        assert_eq!(Snow(height).glyph(), glyphs[height as usize]);
    }
}

#[test]
fn only_a_clear_pile_is_drawn_black() {
    assert_eq!(Snow(0).color(), Color::Black);
    for height in 1..=6 {
        assert_eq!(Snow(height).color(), Color::White);
    }
}

#[test]
fn colours_have_their_channels() {
    assert_eq!(Color::White.rgba(), (255, 255, 255, 255));
    assert_eq!(Color::Black.rgba(), (0, 0, 0, 255));
    assert_eq!(Color::Red.rgba(), (255, 0, 0, 255));
}
