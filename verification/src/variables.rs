use vstd::prelude::*;
use crate::game_modes::GameMode;
use crate::ghost_state::GhostColor;
use crate::location::{Direction, LocationState, Position};

verus! {

/// The number of rows of the maze.
pub const MAZE_ROWS: usize = 31;

/// The number of columns of the maze.
pub const MAZE_COLS: usize = 28;

/// The update period that a game starts with.
pub const INIT_UPDATE_PERIOD: u8 = 12;

/// The number of steps that pass before a level speeds up for the first time.
pub const LEVEL_DURATION: u16 = 960;

/// The number of steps between one speed-up of a level and the next.
pub const LEVEL_PENALTY_DURATION: u16 = 240;

/// The mode that a game starts in.
pub const INIT_MODE: GameMode = GameMode::SCATTER;

/// The level that a game starts on.
pub const INIT_LEVEL: u8 = 1;

/// The number of lives that a game starts with.
pub const INIT_LIVES: u8 = 3;

/// The cell through which ghosts leave the ghost house.
pub const GHOST_HOUSE_EXIT_POS: Position = (12, 13);

/// The number of steps that a fruit stays on the board.
pub const FRUIT_DURATION: u8 = 30;

/// The points earned by collecting a fruit.
pub const FRUIT_POINTS: u16 = 100;

/// The number of steps that a ghost stays frightened.
pub const GHOST_FRIGHT_STEPS: u8 = 40;

/// The number of pellets on a full board.
pub const INIT_PELLET_COUNT: u16 = 244;

/// The number of remaining pellets at which the first fruit appears.
pub const FRUIT_THRESHOLD1: u16 = 174;

/// The number of remaining pellets at which the second fruit appears.
pub const FRUIT_THRESHOLD2: u16 = 74;

/// The number of remaining pellets at which the ghosts get angry.
pub const ANGER_THRESHOLD1: u16 = 20;

/// The number of remaining pellets at which the ghosts get angrier.
pub const ANGER_THRESHOLD2: u16 = 10;

/// The points earned by collecting a pellet.
pub const PELLET_POINTS: u16 = 10;

/// The points earned by collecting a super pellet.
pub const SUPER_PELLET_POINTS: u16 = 50;

/// The points earned by eating the first frightened ghost of a combo.
pub const COMBO_MULTIPLIER: u16 = 200;

/// Where Pacman is placed at the start of a life.
pub open spec fn spec_pacman_spawn_loc() -> LocationState {
    LocationState { row: 23, col: 13, dir: Direction::Up }
}

/// Where Pacman is placed at the start of a life.
#[verifier::when_used_as_spec(spec_pacman_spawn_loc)]
pub fn pacman_spawn_loc() -> (l: LocationState)
    ensures
        l == spec_pacman_spawn_loc(),
{
    LocationState { row: 23, col: 13, dir: Direction::Up }
}

/// Where the fruit appears.
pub open spec fn spec_fruit_spawn_loc() -> LocationState {
    LocationState { row: 17, col: 13, dir: Direction::Stay }
}

/// Where the fruit appears.
#[verifier::when_used_as_spec(spec_fruit_spawn_loc)]
pub fn fruit_spawn_loc() -> (l: LocationState)
    ensures
        l == spec_fruit_spawn_loc(),
{
    LocationState { row: 17, col: 13, dir: Direction::Stay }
}

/// Where a ghost of the given color is placed after a reset.
pub open spec fn spec_ghost_spawn_loc(color: GhostColor) -> LocationState {
    match color {
        GhostColor::Red => LocationState { row: 11, col: 13, dir: Direction::Left },
        GhostColor::Pink => LocationState { row: 13, col: 13, dir: Direction::Down },
        GhostColor::Cyan => LocationState { row: 14, col: 11, dir: Direction::Up },
        GhostColor::Orange => LocationState { row: 14, col: 15, dir: Direction::Up },
    }
}

/// Where a ghost of the given color is placed after a reset.
#[verifier::when_used_as_spec(spec_ghost_spawn_loc)]
pub fn ghost_spawn_loc(color: GhostColor) -> (l: LocationState)
    ensures
        l == spec_ghost_spawn_loc(color),
{
    match color {
        GhostColor::Red => LocationState { row: 11, col: 13, dir: Direction::Left },
        GhostColor::Pink => LocationState { row: 13, col: 13, dir: Direction::Down },
        GhostColor::Cyan => LocationState { row: 14, col: 11, dir: Direction::Up },
        GhostColor::Orange => LocationState { row: 14, col: 15, dir: Direction::Up },
    }
}

/// The corner that a ghost of the given color heads for in scatter mode.
pub open spec fn spec_ghost_scatter_target(color: GhostColor) -> LocationState {
    match color {
        GhostColor::Red => LocationState { row: -3i8, col: 25, dir: Direction::Stay },
        GhostColor::Pink => LocationState { row: -3i8, col: 2, dir: Direction::Stay },
        GhostColor::Cyan => LocationState { row: 31, col: 27, dir: Direction::Stay },
        GhostColor::Orange => LocationState { row: 31, col: 0, dir: Direction::Stay },
    }
}

/// The corner that a ghost of the given color heads for in scatter mode.
#[verifier::when_used_as_spec(spec_ghost_scatter_target)]
pub fn ghost_scatter_target(color: GhostColor) -> (l: LocationState)
    ensures
        l == spec_ghost_scatter_target(color),
{
    match color {
        GhostColor::Red => LocationState { row: -3, col: 25, dir: Direction::Stay },
        GhostColor::Pink => LocationState { row: -3, col: 2, dir: Direction::Stay },
        GhostColor::Cyan => LocationState { row: 31, col: 27, dir: Direction::Stay },
        GhostColor::Orange => LocationState { row: 31, col: 0, dir: Direction::Stay },
    }
}

/// The number of steps that a ghost of the given color stays trapped after a reset.
pub open spec fn spec_ghost_trapped_steps(color: GhostColor) -> u8 {
    match color {
        GhostColor::Red => 0,
        GhostColor::Pink => 5,
        GhostColor::Cyan => 16,
        GhostColor::Orange => 32,
    }
}

/// The number of steps that a ghost of the given color stays trapped after a reset.
#[verifier::when_used_as_spec(spec_ghost_trapped_steps)]
pub fn ghost_trapped_steps(color: GhostColor) -> (n: u8)
    ensures
        n == spec_ghost_trapped_steps(color),
{
    match color {
        GhostColor::Red => 0,
        GhostColor::Pink => 5,
        GhostColor::Cyan => 16,
        GhostColor::Orange => 32,
    }
}

/// The pellets of a full board, one word for each row; bit `c` of a word is
/// the cell in column `c`.
pub const INIT_PELLETS: [u32; 31] = [
    0b0000_0000000000000000000000000000,
    0b0000_0111111111111001111111111110,
    0b0000_0100001000001001000001000010,
    0b0000_0100001000001001000001000010,
    0b0000_0100001000001001000001000010,
    0b0000_0111111111111111111111111110,
    0b0000_0100001001000000001001000010,
    0b0000_0100001001000000001001000010,
    0b0000_0111111001111001111001111110,
    0b0000_0000001000000000000001000000,
    0b0000_0000001000000000000001000000,
    0b0000_0000001000000000000001000000,
    0b0000_0000001000000000000001000000,
    0b0000_0000001000000000000001000000,
    0b0000_0000001000000000000001000000,
    0b0000_0000001000000000000001000000,
    0b0000_0000001000000000000001000000,
    0b0000_0000001000000000000001000000,
    0b0000_0000001000000000000001000000,
    0b0000_0000001000000000000001000000,
    0b0000_0111111111111001111111111110,
    0b0000_0100001000001001000001000010,
    0b0000_0100001000001001000001000010,
    0b0000_0111001111111001111111001110,
    0b0000_0001001001000000001001001000,
    0b0000_0001001001000000001001001000,
    0b0000_0111111001111001111001111110,
    0b0000_0100000000001001000000000010,
    0b0000_0100000000001001000000000010,
    0b0000_0111111111111111111111111110,
    0b0000_0000000000000000000000000000,
];

/// The walls of the maze, one word for each row; bit `c` of a word is the
/// cell in column `c`.
pub const INIT_WALLS: [u32; 31] = [
    0b0000_1111111111111111111111111111,
    0b0000_1000000000000110000000000001,
    0b0000_1011110111110110111110111101,
    0b0000_1011110111110110111110111101,
    0b0000_1011110111110110111110111101,
    0b0000_1000000000000000000000000001,
    0b0000_1011110110111111110110111101,
    0b0000_1011110110111111110110111101,
    0b0000_1000000110000110000110000001,
    0b0000_1111110111110110111110111111,
    0b0000_1111110111110110111110111111,
    0b0000_1111110110000000000110111111,
    0b0000_1111110110111111110110111111,
    0b0000_1111110110111111110110111111,
    0b0000_1111110000111111110000111111,
    0b0000_1111110110111111110110111111,
    0b0000_1111110110111111110110111111,
    0b0000_1111110110000000000110111111,
    0b0000_1111110110111111110110111111,
    0b0000_1111110110111111110110111111,
    0b0000_1000000000000110000000000001,
    0b0000_1011110111110110111110111101,
    0b0000_1011110111110110111110111101,
    0b0000_1000110000000000000000110001,
    0b0000_1110110110111111110110110111,
    0b0000_1110110110111111110110110111,
    0b0000_1000000110000110000110000001,
    0b0000_1011111111110110111111111101,
    0b0000_1011111111110110111111111101,
    0b0000_1000000000000000000000000001,
    0b0000_1111111111111111111111111111,
];

} // verus!
