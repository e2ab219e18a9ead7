use pacbot_rs::location::{
    dist_sq, empty_loc, is_super_pellet, Direction, LocationState, SUPER_PELLETS,
};
use pacbot_rs::wire::DecodeError;

#[test]
fn super_pellets_are_the_four_corner_cells() {
    for pos in SUPER_PELLETS {
        assert!(is_super_pellet(pos));
    }
    assert!(is_super_pellet((3, 1)));
    assert!(is_super_pellet((23, 26)));
    assert!(!is_super_pellet((3, 2)));
    assert!(!is_super_pellet((4, 1)));
    assert!(!is_super_pellet((1, 3)));
}

#[test]
fn direction_index_round_trip() {
    assert_eq!(Direction::try_from(0u8), Ok(Direction::Up));
    assert_eq!(Direction::try_from(1u8), Ok(Direction::Left));
    assert_eq!(Direction::try_from(2u8), Ok(Direction::Down));
    assert_eq!(Direction::try_from(3u8), Ok(Direction::Right));
    assert_eq!(Direction::try_from(4u8), Ok(Direction::Stay));
    assert_eq!(Direction::try_from(5u8), Err(()));
    assert_eq!(Direction::from_u8(255), None);
    for i in 0..5u8 {
        assert_eq!(Direction::from_u8(i).unwrap().index(), i);
    }
}

#[test]
fn directions_in_tie_break_order() {
    assert_eq!(
        Direction::all_except_stay(),
        [Direction::Up, Direction::Left, Direction::Down, Direction::Right]
    );
}

#[test]
fn opposite_and_vector() {
    assert_eq!(Direction::Up.opposite(), Direction::Down);
    assert_eq!(Direction::Down.opposite(), Direction::Up);
    assert_eq!(Direction::Left.opposite(), Direction::Right);
    assert_eq!(Direction::Right.opposite(), Direction::Left);
    assert_eq!(Direction::Stay.opposite(), Direction::Stay);
    assert_eq!(Direction::Up.vector(), (-1, 0));
    assert_eq!(Direction::Down.vector(), (1, 0));
    assert_eq!(Direction::Left.vector(), (0, -1));
    assert_eq!(Direction::Right.vector(), (0, 1));
    assert_eq!(Direction::Stay.vector(), (0, 0));
}

#[test]
fn unplaced_location_collides_with_nothing() {
    let empty = empty_loc();
    assert_eq!(empty, LocationState::new(32, 32, Direction::Stay));
    assert!(empty.is_empty());
    assert!(!empty.collides_with(empty));
    let a = LocationState::new(5, 6, Direction::Up);
    let b = LocationState::new(5, 6, Direction::Left);
    assert!(a.collides_with(b));
    assert!(!a.collides_with(LocationState::new(5, 7, Direction::Up)));
    assert!(!a.collides_with(empty));
    assert!(!LocationState::new(32, 5, Direction::Up)
        .collides_with(LocationState::new(32, 5, Direction::Up)));
    assert!(!a.is_empty());
    assert!(!LocationState::new(32, 5, Direction::Up).is_empty());
}

#[test]
fn neighbor_and_ahead_coords() {
    let loc = LocationState::new(10, 20, Direction::Left);
    assert_eq!(loc.get_coords(), (10, 20));
    assert_eq!(loc.get_neighbor_coords(Direction::Up), (9, 20));
    assert_eq!(loc.get_neighbor_coords(Direction::Down), (11, 20));
    assert_eq!(loc.get_neighbor_coords(Direction::Left), (10, 19));
    assert_eq!(loc.get_neighbor_coords(Direction::Right), (10, 21));
    assert_eq!(loc.get_neighbor_coords(Direction::Stay), (10, 20));
    assert_eq!(loc.get_ahead_coords(4), (10, 16));
    assert_eq!(loc.get_ahead_coords(0), (10, 20));
    assert_eq!(LocationState::new(1, 1, Direction::Up).get_ahead_coords(4), (-3, 1));
}

#[test]
fn advance_and_update_coords() {
    let mut next = empty_loc();
    next.advance_from(LocationState::new(11, 13, Direction::Left));
    assert_eq!(next, LocationState::new(11, 12, Direction::Left));
    next.update_coords((4, 5));
    assert_eq!(next, LocationState::new(4, 5, Direction::Left));
}

#[test]
fn packed_position_bytes() {
    assert_eq!(LocationState::new(23, 13, Direction::Up).to_bytes(), [0xC0 | 23, 13]);
    assert_eq!(LocationState::new(23, 13, Direction::Down).to_bytes(), [0x40 | 23, 13]);
    assert_eq!(LocationState::new(23, 13, Direction::Left).to_bytes(), [23, 0xC0 | 13]);
    assert_eq!(LocationState::new(23, 13, Direction::Right).to_bytes(), [23, 0x40 | 13]);
    assert_eq!(LocationState::new(23, 13, Direction::Stay).to_bytes(), [23, 13]);
    assert_eq!(empty_loc().to_bytes(), [0b0010_0000, 0b0010_0000]);
}

#[test]
fn packed_position_round_trip() {
    for dir in [Direction::Up, Direction::Left, Direction::Down, Direction::Right, Direction::Stay]
    {
        for row in [0i8, 1, 30, 32, 63] {
            for col in [0i8, 13, 27, 32, 63] {
                let loc = LocationState::new(row, col, dir);
                assert_eq!(LocationState::from_bytes(loc.to_bytes()), Ok(loc));
            }
        }
    }
}

#[test]
fn packed_position_without_direction_is_rejected() {
    assert_eq!(LocationState::from_bytes([0x40 | 5, 0x40 | 6]), Err(DecodeError::InvalidDirection));
    assert_eq!(LocationState::from_bytes([0x80 | 5, 6]), Err(DecodeError::InvalidDirection));
    assert_eq!(LocationState::from_bytes([5, 0x80 | 6]), Err(DecodeError::InvalidDirection));
    assert_eq!(LocationState::from_bytes([0xC0 | 5, 0xC0 | 6]), Err(DecodeError::InvalidDirection));
    assert_eq!(
        LocationState::from_bytes([0xC0 | 5, 6]),
        Ok(LocationState::new(5, 6, Direction::Up))
    );
}

#[test]
fn squared_distance() {
    assert_eq!(dist_sq((0, 0), (3, 4)), 25);
    assert_eq!(dist_sq((3, 4), (0, 0)), 25);
    assert_eq!(dist_sq((-3, 25), (10, 12)), 338);
    assert_eq!(dist_sq((5, 5), (5, 5)), 0);
    assert_eq!(dist_sq((-128, -128), (127, 127)), 130050);
}
