use vstd::prelude::*;
use crate::game_state::GameState;
use crate::location::Position;
use crate::variables::{MAZE_COLS, MAZE_ROWS};

verus! {

/// Whether bit `bit_idx` of `num` is set.
pub open spec fn spec_get_bit_u32(num: u32, bit_idx: usize) -> bool {
    ((num >> bit_idx) & 1) == 1
}

/// Whether bit `bit_idx` of `num` is set.
#[verifier::when_used_as_spec(spec_get_bit_u32)]
pub fn get_bit_u32(num: u32, bit_idx: usize) -> (b: bool)
    requires
        bit_idx < 32,
    ensures
        b == spec_get_bit_u32(num, bit_idx),
{
    ((num >> bit_idx) & 1) == 1
}

/// `num` with bit `bit_idx` set to `bit_val`.
pub open spec fn spec_modify_bit_u32(num: u32, bit_idx: usize, bit_val: bool) -> u32 {
    if bit_val {
        num | (1u32 << bit_idx)
    } else {
        num & !(1u32 << bit_idx)
    }
}

/// Sets bit `bit_idx` of `num` to `bit_val`.
pub fn modify_bit_u32(num: &mut u32, bit_idx: usize, bit_val: bool)
    requires
        bit_idx < 32,
    ensures
        *final(num) == spec_modify_bit_u32(*old(num), bit_idx, bit_val),
{
    if bit_val {
        *num |= 1u32 << bit_idx;
    } else {
        *num &= !(1u32 << bit_idx);
    }
}

/// Whether a position lies on the board: rows 0 to 30, columns 0 to 27.
pub open spec fn spec_in_bounds(pos: Position) -> bool {
    0 <= pos.0 < MAZE_ROWS && 0 <= pos.1 < MAZE_COLS
}

/// Whether a position lies in the ghost house: rows 13 and 14, columns 11 to 15.
pub open spec fn spec_ghost_spawn_at(pos: Position) -> bool {
    13 <= pos.0 <= 14 && 11 <= pos.1 <= 15
}

impl GameState {
    /// Whether a position lies on the board.
    pub fn in_bounds(&self, pos: Position) -> (b: bool)
        ensures
            b == spec_in_bounds(pos),
    {
        let (row, col) = pos;
        (row >= 0 && row < MAZE_ROWS as i8) && (col >= 0 && col < MAZE_COLS as i8)
    }

    /// Whether a pellet lies at a position; off the board there is none.
    pub open spec fn spec_pellet_at(&self, pos: Position) -> bool {
        spec_in_bounds(pos) && spec_get_bit_u32(self.pellets[pos.0 as int], pos.1 as usize)
    }

    /// Whether a pellet lies at a position; off the board there is none.
    #[verifier::when_used_as_spec(spec_pellet_at)]
    pub fn pellet_at(&self, pos: Position) -> (b: bool)
        ensures
            b == self.spec_pellet_at(pos),
    {
        let (row, col) = pos;
        if !self.in_bounds(pos) {
            return false;
        }
        get_bit_u32(self.pellets[row as usize], col as usize)
    }

    /// Whether a wall stands at a position; everything off the board is wall.
    pub open spec fn spec_wall_at(&self, pos: Position) -> bool {
        !spec_in_bounds(pos) || spec_get_bit_u32(self.walls[pos.0 as int], pos.1 as usize)
    }

    /// Whether a wall stands at a position; everything off the board is wall.
    #[verifier::when_used_as_spec(spec_wall_at)]
    pub fn wall_at(&self, pos: Position) -> (b: bool)
        ensures
            b == self.spec_wall_at(pos),
    {
        if !self.in_bounds(pos) {
            return true;
        }
        let (row, col) = pos;
        get_bit_u32(self.walls[row as usize], col as usize)
    }

    /// Whether a position lies in the ghost house.
    pub fn ghost_spawn_at(&self, pos: Position) -> (b: bool)
        ensures
            b == spec_ghost_spawn_at(pos),
    {
        let (row, col) = pos;
        13 <= row && row <= 14 && 11 <= col && col <= 15
    }
}

} // verus!
