use vstd::prelude::*;
use crate::game_state::{is_maze, lemma_is_maze, GameState};
use crate::location::{Direction, LocationState, Position};
use crate::maze::{spec_ghost_spawn_at, spec_in_bounds};
use crate::variables::{GHOST_HOUSE_EXIT_POS, INIT_WALLS};

verus! {

/// The walls of row `r` of the maze, and solid wall for any row off the board.
spec fn wall_word(r: u32) -> u32 {
    if r == 0 {
        0b0000_1111111111111111111111111111
    } else if r == 1 {
        0b0000_1000000000000110000000000001
    } else if r == 2 {
        0b0000_1011110111110110111110111101
    } else if r == 3 {
        0b0000_1011110111110110111110111101
    } else if r == 4 {
        0b0000_1011110111110110111110111101
    } else if r == 5 {
        0b0000_1000000000000000000000000001
    } else if r == 6 {
        0b0000_1011110110111111110110111101
    } else if r == 7 {
        0b0000_1011110110111111110110111101
    } else if r == 8 {
        0b0000_1000000110000110000110000001
    } else if r == 9 {
        0b0000_1111110111110110111110111111
    } else if r == 10 {
        0b0000_1111110111110110111110111111
    } else if r == 11 {
        0b0000_1111110110000000000110111111
    } else if r == 12 {
        0b0000_1111110110111111110110111111
    } else if r == 13 {
        0b0000_1111110110111111110110111111
    } else if r == 14 {
        0b0000_1111110000111111110000111111
    } else if r == 15 {
        0b0000_1111110110111111110110111111
    } else if r == 16 {
        0b0000_1111110110111111110110111111
    } else if r == 17 {
        0b0000_1111110110000000000110111111
    } else if r == 18 {
        0b0000_1111110110111111110110111111
    } else if r == 19 {
        0b0000_1111110110111111110110111111
    } else if r == 20 {
        0b0000_1000000000000110000000000001
    } else if r == 21 {
        0b0000_1011110111110110111110111101
    } else if r == 22 {
        0b0000_1011110111110110111110111101
    } else if r == 23 {
        0b0000_1000110000000000000000110001
    } else if r == 24 {
        0b0000_1110110110111111110110110111
    } else if r == 25 {
        0b0000_1110110110111111110110110111
    } else if r == 26 {
        0b0000_1000000110000110000110000001
    } else if r == 27 {
        0b0000_1011111111110110111111111101
    } else if r == 28 {
        0b0000_1011111111110110111111111101
    } else if r == 29 {
        0b0000_1000000000000000000000000001
    } else {
        0b0000_1111111111111111111111111111
    }
}

/// `wall_word` gives the rows of the maze.
proof fn lemma_wall_word(r: u32)
    requires
        r < 31,
    ensures
        wall_word(r) == INIT_WALLS[r as int],
{
}

/// Whether bit `c` of `w` is clear.
spec fn clear_bit(w: u32, c: u32) -> bool {
    (w >> c) & 1 == 0
}

/// Whether at least two of the four cells next to column `c` of a row with
/// walls `w` are no walls, `up` and `down` being the walls of the rows above
/// and below, and everything outside the 28 columns being wall.
spec fn two_exits(w: u32, up: u32, down: u32, c: u32) -> bool {
    let u = clear_bit(up, c);
    let d = clear_bit(down, c);
    let l = c > 0 && clear_bit(w, (c - 1) as u32);
    let r = c < 27 && clear_bit(w, (c + 1) as u32);
    (u && d) || (u && l) || (u && r) || (d && l) || (d && r) || (l && r)
}

/// Every cell of the maze that is no wall has at least two cells next to it
/// that are no walls; the first and the last row are all wall.
proof fn lemma_maze_words()
    ensures
        forall|r: u32, c: u32|
            1 <= r < 30 && c < 28 && clear_bit(wall_word(r), c) ==> #[trigger] two_exits(
                wall_word(r),
                wall_word((r - 1) as u32),
                wall_word((r + 1) as u32),
                c,
            ),
        forall|c: u32| c < 28 ==> !#[trigger] clear_bit(wall_word(0), c),
        forall|c: u32| c < 28 ==> !#[trigger] clear_bit(wall_word(30), c),
{
    assert(forall|r: u32, c: u32|
        1 <= r < 30 && c < 28 && clear_bit(wall_word(r), c) ==> #[trigger] two_exits(
            wall_word(r),
            wall_word((r - 1) as u32),
            wall_word((r + 1) as u32),
            c,
        )) by (bit_vector);
    assert(forall|c: u32| c < 28 ==> !#[trigger] clear_bit(wall_word(0), c)) by (bit_vector);
    assert(forall|c: u32| c < 28 ==> !#[trigger] clear_bit(wall_word(30), c)) by (bit_vector);
}

/// A bit is set or clear.
proof fn lemma_bit_is_set_or_clear(w: u32, c: u32)
    ensures
        ((w >> c) & 1 == 1) != clear_bit(w, c),
{
    assert(((w >> c) & 1 == 1) != ((w >> c) & 1 == 0)) by (bit_vector);
}

/// Whether the cell next to `pos` in direction `dir` is no wall.
pub open spec fn open_towards(s: GameState, pos: Position, dir: Direction) -> bool {
    !s.spec_wall_at((LocationState { row: pos.0, col: pos.1, dir }).spec_get_neighbor_coords(dir))
}

/// The number of cells next to `pos` that are no walls.
pub open spec fn open_neighbours(s: GameState, pos: Position) -> int {
    (if open_towards(s, pos, Direction::Up) { 1int } else { 0 }) + (if open_towards(
        s,
        pos,
        Direction::Left,
    ) { 1int } else { 0 }) + (if open_towards(s, pos, Direction::Down) { 1int } else { 0 }) + (
    if open_towards(s, pos, Direction::Right) { 1int } else { 0 })
}

/// In the maze, whether a cell of the board is a wall is what the words of
/// its row say.
proof fn lemma_wall_bits(s: GameState, pos: Position)
    requires
        is_maze(s.walls),
        spec_in_bounds(pos),
    ensures
        s.spec_wall_at(pos) == !clear_bit(wall_word(pos.0 as u32), pos.1 as u32),
{
    lemma_is_maze(s.walls);
    lemma_wall_word(pos.0 as u32);
    assert(s.walls[pos.0 as int] == INIT_WALLS[pos.0 as int]);
    lemma_bit_is_set_or_clear(wall_word(pos.0 as u32), pos.1 as u32);
}

/// The maze has no dead ends: every cell that is no wall has at least two
/// cells next to it that are no walls.
pub proof fn lemma_no_dead_ends(s: GameState, pos: Position)
    requires
        is_maze(s.walls),
        !s.spec_wall_at(pos),
    ensures
        open_neighbours(s, pos) >= 2,
{
    let r = pos.0 as u32;
    let c = pos.1 as u32;
    lemma_maze_words();
    lemma_wall_bits(s, pos);
    assert(1 <= r < 30) by {
        if r == 0 {
            assert(!clear_bit(wall_word(0), c));
        }
        if r == 30 {
            assert(!clear_bit(wall_word(30), c));
        }
    }
    assert(two_exits(wall_word(r), wall_word((r - 1) as u32), wall_word((r + 1) as u32), c));
    lemma_wall_bits(s, ((pos.0 - 1) as i8, pos.1));
    lemma_wall_bits(s, ((pos.0 + 1) as i8, pos.1));
    if c > 0 {
        lemma_wall_bits(s, (pos.0, (pos.1 - 1) as i8));
    }
    if c < 27 {
        lemma_wall_bits(s, (pos.0, (pos.1 + 1) as i8));
    }
}

/// Red's spawn cell and the cell to its left are no walls.
pub proof fn lemma_red_spawn_is_open(s: GameState)
    requires
        is_maze(s.walls),
    ensures
        !s.spec_wall_at((11, 13)),
        !s.spec_wall_at((11, 12)),
{
    lemma_wall_bits(s, (11, 13));
    lemma_wall_bits(s, (11, 12));
    assert(clear_bit(wall_word(11), 13) && clear_bit(wall_word(11), 12)) by (bit_vector);
}

/// A ghost that is about to move to a cell that it may enter has a valid
/// direction there: planning cannot fail for want of one.
pub proof fn lemma_ghost_can_move_on(s: GameState, i: int)
    requires
        is_maze(s.walls),
        0 <= i < 4,
        s.may_enter(i, s.planned_loc(i).spec_get_coords()),
    ensures
        s.has_valid_move(i),
{
    let next = s.planned_loc(i);
    let pos = next.spec_get_coords();
    let back = next.dir.spec_opposite();
    if !s.spec_wall_at(pos) {
        lemma_no_dead_ends(s, pos);
        assert(forall|d: Direction|
            d != Direction::Stay && d != back && open_towards(s, pos, d) ==> s.move_valid(i, d));
    } else if pos == GHOST_HOUSE_EXIT_POS {
        lemma_wall_bits(s, (11, 13));
        assert(clear_bit(wall_word(11), 13)) by (bit_vector);
        assert(s.move_valid(i, Direction::Up) || s.move_valid(i, Direction::Down));
    } else {
        assert(spec_ghost_spawn_at(pos));
        let across = if pos.0 == 13 {
            Direction::Down
        } else {
            Direction::Up
        };
        let along = if pos.1 == 11 {
            Direction::Right
        } else {
            Direction::Left
        };
        assert(s.move_valid(i, across) || s.move_valid(i, along));
    }
}

/// A state in which every ghost that chooses a direction is about to move
/// to a cell that it may enter can be planned.
pub proof fn lemma_plannable(s: GameState)
    requires
        is_maze(s.walls),
        forall|i: int|
            0 <= i < 4 && s.chooses(i) ==> #[trigger] s.may_enter(
                i,
                s.planned_loc(i).spec_get_coords(),
            ),
    ensures
        s.plannable(),
{
    if s.chooses(0) {
        assert(s.may_enter(0, s.planned_loc(0).spec_get_coords()));
        lemma_ghost_can_move_on(s, 0);
    }
    if s.chooses(1) {
        assert(s.may_enter(1, s.planned_loc(1).spec_get_coords()));
        lemma_ghost_can_move_on(s, 1);
    }
    if s.chooses(2) {
        assert(s.may_enter(2, s.planned_loc(2).spec_get_coords()));
        lemma_ghost_can_move_on(s, 2);
    }
    if s.chooses(3) {
        assert(s.may_enter(3, s.planned_loc(3).spec_get_coords()));
        lemma_ghost_can_move_on(s, 3);
    }
}

} // verus!
