use snake_api_lib::common::{Cell, Coord, Direction, GRID_AREA, GRID_X, GRID_Y};

#[test]
fn distances() {
    let a = Coord { row: 3, col: 10 };
    let b = Coord { row: 7, col: 4 };
    assert_eq!(a.l1(b), 10);
    assert_eq!(b.l1(a), 10);
    assert_eq!(a.l0(b), 6);
    assert_eq!(a.l0(a), 0);
    assert_eq!(a.l1(a), 0);
    let c = Coord { row: -1, col: 0 };
    assert_eq!(c.l1(Coord { row: 2, col: 2 }), 5);
    assert_eq!(c.l0(Coord { row: 2, col: 2 }), 3);
}

#[test]
fn index_round_trip() {
    assert_eq!(GRID_AREA, GRID_X * GRID_Y);
    assert_eq!(Coord { row: 0, col: 0 }.into_index(), 0);
    assert_eq!(Coord { row: 1, col: 0 }.into_index(), 32);
    assert_eq!(Coord { row: 39, col: 31 }.into_index(), 1279);
    for i in 0..GRID_AREA {
        let c = Coord::from_index(i);
        assert!(c.row >= 0 && (c.row as usize) < GRID_X);
        assert!(c.col >= 0 && (c.col as usize) < GRID_Y);
        assert_eq!(c.into_index(), i);
    }
}

#[test]
fn middle_is_the_center() {
    assert_eq!(Coord::middle(), Coord { row: 20, col: 16 });
    assert_eq!(Coord::default(), Coord::middle());
}

#[test]
fn add_dir_moves_one_cell() {
    let c = Coord { row: 5, col: 5 };
    assert_eq!(c.add_dir(Direction::Left), Coord { row: 5, col: 4 });
    assert_eq!(c.add_dir(Direction::Up), Coord { row: 4, col: 5 });
    assert_eq!(c.add_dir(Direction::Right), Coord { row: 5, col: 6 });
    assert_eq!(c.add_dir(Direction::Down), Coord { row: 6, col: 5 });
    assert_eq!(Coord { row: 0, col: 0 }.add_dir(Direction::Up), Coord { row: -1, col: 0 });
}

#[test]
fn add_dir_then_inverse_returns() {
    let dirs = [Direction::Left, Direction::Up, Direction::Right, Direction::Down];
    for row in 0..GRID_X as i16 {
        for col in 0..GRID_Y as i16 {
            let c = Coord { row, col };
            for d in dirs {
                assert_eq!(c.add_dir(d).add_dir(d.inverse()), c);
            }
        }
    }
}

#[test]
fn direction_ordinals_and_inverse() {
    let dirs = [Direction::Left, Direction::Up, Direction::Right, Direction::Down];
    for (i, d) in dirs.iter().enumerate() {
        assert_eq!(d.index(), i);
        assert_eq!(Direction::from_index(i), *d);
        assert_eq!(d.inverse().inverse(), *d);
    }
    assert_eq!(Direction::Left.inverse(), Direction::Right);
    assert_eq!(Direction::Up.inverse(), Direction::Down);
    assert_eq!(Direction::default(), Direction::Left);
    assert_eq!(Direction::Left.symbol(), '\u{2190}');
    assert_eq!(Direction::Down.symbol(), '\u{2193}');
}

#[test]
fn coord_difference_saturates() {
    let c = Coord { row: 4, col: 9 } - Coord { row: 1, col: 10 };
    assert_eq!(c, Coord { row: 3, col: -1 });
    let low = Coord { row: i16::MIN, col: 0 } - Coord { row: 1, col: 0 };
    assert_eq!(low.row, i16::MIN);
    assert_ne!(Cell::Apple, Cell::Empty);
}
