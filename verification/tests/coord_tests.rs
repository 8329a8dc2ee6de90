use snake_game::{Coord, Direction};

#[test]
fn opposite_swaps_each_pair() {
    assert_eq!(Direction::Up.opposite(), Direction::Down);
    assert_eq!(Direction::Down.opposite(), Direction::Up);
    assert_eq!(Direction::Left.opposite(), Direction::Right);
    assert_eq!(Direction::Right.opposite(), Direction::Left);
}

#[test]
fn opposite_twice_is_identity() {
    for d in [Direction::Up, Direction::Down, Direction::Left, Direction::Right] {
        assert_eq!(d.opposite().opposite(), d);
        assert_ne!(d.opposite(), d);
    }
}

#[test]
fn direction_to_prefers_rows() {
    let here = Coord(5, 5);
    assert_eq!(here.direction_to(&Coord(4, 5)), Direction::Up);
    assert_eq!(here.direction_to(&Coord(6, 5)), Direction::Down);
    assert_eq!(here.direction_to(&Coord(5, 4)), Direction::Left);
    assert_eq!(here.direction_to(&Coord(5, 6)), Direction::Right);
    // a difference in rows decides, whatever the columns
    assert_eq!(here.direction_to(&Coord(2, 9)), Direction::Up);
    assert_eq!(here.direction_to(&Coord(9, 0)), Direction::Down);
}

#[test]
fn direction_to_itself_is_right() {
    assert_eq!(Coord(3, 3).direction_to(&Coord(3, 3)), Direction::Right);
}

#[test]
fn step_offsets_by_one() {
    let here = Coord(5, 7);
    assert_eq!(here.step(Direction::Up), Some(Coord(4, 7)));
    assert_eq!(here.step(Direction::Down), Some(Coord(6, 7)));
    assert_eq!(here.step(Direction::Left), Some(Coord(5, 6)));
    assert_eq!(here.step(Direction::Right), Some(Coord(5, 8)));
}

#[test]
fn step_never_wraps() {
    assert_eq!(Coord(0, 3).step(Direction::Up), None);
    assert_eq!(Coord(3, 0).step(Direction::Left), None);
    assert_eq!(Coord(usize::MAX, 3).step(Direction::Down), None);
    assert_eq!(Coord(3, usize::MAX).step(Direction::Right), None);
    assert_eq!(Coord(0, 0).step(Direction::Down), Some(Coord(1, 0)));
    assert_eq!(Coord(0, 0).step(Direction::Right), Some(Coord(0, 1)));
}

#[test]
fn step_and_direction_to_agree() {
    let here = Coord(8, 8);
    for d in [Direction::Up, Direction::Down, Direction::Left, Direction::Right] {
        let there = here.step(d).unwrap();
        assert_eq!(here.direction_to(&there), d);
        assert_eq!(there.direction_to(&here), d.opposite());
        assert_eq!(there.step(d.opposite()), Some(here));
    }
}

#[test]
fn arrow_keys_steer() {
    assert_eq!(Direction::from_key("ArrowUp"), Some(Direction::Up));
    assert_eq!(Direction::from_key("ArrowDown"), Some(Direction::Down));
    assert_eq!(Direction::from_key("ArrowLeft"), Some(Direction::Left));
    assert_eq!(Direction::from_key("ArrowRight"), Some(Direction::Right));
}

#[test]
fn other_keys_are_ignored() {
    assert_eq!(Direction::from_key("w"), None);
    assert_eq!(Direction::from_key(""), None);
    assert_eq!(Direction::from_key("arrowup"), None);
    assert_eq!(Direction::from_key("ArrowUp "), None);
    assert_eq!(Direction::from_key("Enter"), None);
}
