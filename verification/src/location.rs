use vstd::prelude::*;
use crate::wire::DecodeError;

verus! {

/// A board coordinate: row first, column second.
pub type Position = (i8, i8);

/// Whether the pellet at `position` is one of the four super pellets.
pub open spec fn spec_is_super_pellet(position: Position) -> bool {
    (position.0 == 3 || position.0 == 23) && (position.1 == 1 || position.1 == 26)
}

/// Whether the pellet at `position` is one of the four super pellets.
#[verifier::when_used_as_spec(spec_is_super_pellet)]
pub fn is_super_pellet(position: Position) -> (b: bool)
    ensures
        b == spec_is_super_pellet(position),
{
    let (row, col) = position;
    ((row == 3) || (row == 23)) && ((col == 1) || (col == 26))
}

/// The cells that hold a super pellet at the start of a level.
pub const SUPER_PELLETS: [Position; 4] = [(3, 1), (3, 26), (23, 1), (23, 26)];

/// The directions an agent can face.
#[derive(Copy, Clone, Debug, PartialOrd, PartialEq, Ord, Eq, Structural)]
pub enum Direction {
    Up,
    Left,
    Down,
    Right,
    Stay,
}

impl Direction {
    /// The direction with the given index, in the order Up, Left, Down, Right, Stay.
    pub open spec fn spec_from_u8(value: u8) -> Option<Direction> {
        if value == 0 {
            Some(Direction::Up)
        } else if value == 1 {
            Some(Direction::Left)
        } else if value == 2 {
            Some(Direction::Down)
        } else if value == 3 {
            Some(Direction::Right)
        } else if value == 4 {
            Some(Direction::Stay)
        } else {
            None
        }
    }

    /// The direction with the given index, if there is one.
    pub fn from_u8(value: u8) -> (r: Option<Direction>)
        ensures
            r == Self::spec_from_u8(value),
    {
        match value {
            0 => Some(Direction::Up),
            1 => Some(Direction::Left),
            2 => Some(Direction::Down),
            3 => Some(Direction::Right),
            4 => Some(Direction::Stay),
            _ => None,
        }
    }

    /// The index of a direction: the inverse of `from_u8`.
    pub open spec fn spec_index(self) -> u8 {
        match self {
            Direction::Up => 0,
            Direction::Left => 1,
            Direction::Down => 2,
            Direction::Right => 3,
            Direction::Stay => 4,
        }
    }

    /// The index of a direction: the inverse of `from_u8`.
    #[verifier::when_used_as_spec(spec_index)]
    pub fn index(self) -> (i: u8)
        ensures
            i == self.spec_index(),
    {
        match self {
            Direction::Up => 0,
            Direction::Left => 1,
            Direction::Down => 2,
            Direction::Right => 3,
            Direction::Stay => 4,
        }
    }

    /// The four directions of movement, in the order in which ties are broken.
    pub open spec fn spec_all_except_stay() -> Seq<Direction> {
        seq![Direction::Up, Direction::Left, Direction::Down, Direction::Right]
    }

    /// The four directions of movement, in the order in which ties are broken.
    pub fn all_except_stay() -> (a: [Direction; 4])
        ensures
            a@ == Self::spec_all_except_stay(),
    {
        let a = [Direction::Up, Direction::Left, Direction::Down, Direction::Right];
        assert(a@ =~= Self::spec_all_except_stay());
        a
    }

    /// The opposite direction, for example Up for Down; Stay is its own opposite.
    pub open spec fn spec_opposite(&self) -> Direction {
        match self {
            Direction::Up => Direction::Down,
            Direction::Left => Direction::Right,
            Direction::Down => Direction::Up,
            Direction::Right => Direction::Left,
            Direction::Stay => Direction::Stay,
        }
    }

    /// The opposite direction, for example Up for Down; Stay is its own opposite.
    #[verifier::when_used_as_spec(spec_opposite)]
    pub fn opposite(&self) -> (d: Direction)
        ensures
            d == self.spec_opposite(),
    {
        match self {
            Direction::Up => Direction::Down,
            Direction::Left => Direction::Right,
            Direction::Down => Direction::Up,
            Direction::Right => Direction::Left,
            Direction::Stay => Direction::Stay,
        }
    }

    /// The step a direction makes, as (rows, columns): Up is (-1, 0).
    pub open spec fn spec_vector(&self) -> (i8, i8) {
        match self {
            Direction::Up => (-1i8, 0i8),
            Direction::Down => (1i8, 0i8),
            Direction::Left => (0i8, -1i8),
            Direction::Right => (0i8, 1i8),
            Direction::Stay => (0i8, 0i8),
        }
    }

    /// The step a direction makes, as (rows, columns): Up is (-1, 0).
    #[verifier::when_used_as_spec(spec_vector)]
    pub fn vector(&self) -> (v: (i8, i8))
        ensures
            v == self.spec_vector(),
    {
        match self {
            Direction::Up => (-1, 0),
            Direction::Down => (1, 0),
            Direction::Left => (0, -1),
            Direction::Right => (0, 1),
            Direction::Stay => (0, 0),
        }
    }
}

impl TryFrom<u8> for Direction {
    type Error = ();

    /// The direction with the given index, or an error if there is none.
    fn try_from(value: u8) -> (r: Result<Self, Self::Error>) {
        match Direction::from_u8(value) {
            Some(dir) => Ok(dir),
            None => Err(()),
        }
    }
}

impl vstd::std_specs::convert::TryFromSpecImpl<u8> for Direction {
    open spec fn obeys_try_from_spec() -> bool {
        true
    }

    open spec fn try_from_spec(value: u8) -> Result<Self, Self::Error> {
        match Direction::spec_from_u8(value) {
            Some(dir) => Ok(dir),
            None => Err(()),
        }
    }
}

/// The two direction bits of one axis, already in place at the top of a byte:
/// 0b01 for a step of +1, 0b11 for a step of -1.
pub open spec fn delta_bits(delta: i8) -> u8 {
    if delta == 1 {
        0x40
    } else if delta == -1 {
        0xC0
    } else {
        0
    }
}

/// One axis of a packed position: the direction bits over the coordinate's byte.
pub open spec fn pack_axis(delta: i8, coord: i8) -> u8 {
    delta_bits(delta) | (coord as u8)
}

/// The direction that the top two bits of a row byte and a column byte name.
pub open spec fn unpack_dir(row_byte: u8, col_byte: u8) -> Option<Direction> {
    let dr = row_byte / 64;
    let dc = col_byte / 64;
    if dr == 0 && dc == 0 {
        Some(Direction::Stay)
    } else if dr == 3 && dc == 0 {
        Some(Direction::Up)
    } else if dr == 1 && dc == 0 {
        Some(Direction::Down)
    } else if dr == 0 && dc == 3 {
        Some(Direction::Left)
    } else if dr == 0 && dc == 1 {
        Some(Direction::Right)
    } else {
        None
    }
}

/// The position and facing direction of an agent.
#[derive(Copy, Clone, Debug, PartialOrd, PartialEq, Ord, Eq, Structural)]
pub struct LocationState {
    pub row: i8,
    pub col: i8,
    pub dir: Direction,
}

/// The location of an agent that is not placed on the board.
pub open spec fn spec_empty_loc() -> LocationState {
    LocationState { row: 32, col: 32, dir: Direction::Stay }
}

/// The location of an agent that is not placed on the board.
#[verifier::when_used_as_spec(spec_empty_loc)]
pub fn empty_loc() -> (l: LocationState)
    ensures
        l == spec_empty_loc(),
{
    LocationState { row: 32, col: 32, dir: Direction::Stay }
}

impl LocationState {
    pub open spec fn spec_new(row: i8, col: i8, dir: Direction) -> Self {
        LocationState { row, col, dir }
    }

    #[verifier::when_used_as_spec(spec_new)]
    pub fn new(row: i8, col: i8, dir: Direction) -> (l: Self)
        ensures
            l == Self::spec_new(row, col, dir),
    {
        Self { row, col, dir }
    }

    /// Both coordinates lie in 0..=32: on the board's grid, or on the row or
    /// column of the unplaced location.
    pub open spec fn in_range(self) -> bool {
        0 <= self.row <= 32 && 0 <= self.col <= 32
    }

    /// Neither coordinate is the least or the greatest that an `i8` holds,
    /// so that each cell next to this one has coordinates too.
    pub open spec fn has_neighbors(self) -> bool {
        i8::MIN < self.row < i8::MAX && i8::MIN < self.col < i8::MAX
    }

    /// The location is in range, and so is the cell ahead of it.
    pub open spec fn heading_in_range(self) -> bool {
        &&& self.in_range()
        &&& 0 <= self.offset(self.dir, 1).0 <= 32
        &&& 0 <= self.offset(self.dir, 1).1 <= 32
    }

    /// Both coordinates fit the six bits that a packed position has for each.
    pub open spec fn packable(self) -> bool {
        0 <= self.row < 64 && 0 <= self.col < 64
    }

    /// Two locations collide when their coordinates are equal and all four are
    /// below 32; an unplaced location collides with nothing, itself included.
    pub open spec fn spec_collides_with(&self, loc2: LocationState) -> bool {
        self.row < 32 && self.col < 32 && loc2.row < 32 && loc2.col < 32 && self.row == loc2.row
            && self.col == loc2.col
    }

    /// Whether this location and `loc2` are on the same cell of the board.
    #[verifier::when_used_as_spec(spec_collides_with)]
    pub fn collides_with(&self, loc2: LocationState) -> (b: bool)
        ensures
            b == self.spec_collides_with(loc2),
    {
        if self.row >= 32 || self.col >= 32 || loc2.row >= 32 || loc2.col >= 32 {
            return false;
        }
        (self.row == loc2.row) && (self.col == loc2.col)
    }

    /// Whether the coordinates are those of the unplaced location.
    pub open spec fn spec_is_empty(&self) -> bool {
        self.row == 32 && self.col == 32
    }

    /// Whether the coordinates are those of the unplaced location.
    #[verifier::when_used_as_spec(spec_is_empty)]
    pub fn is_empty(&self) -> (b: bool)
        ensures
            b == self.spec_is_empty(),
    {
        (self.row == 32) && (self.col == 32)
    }

    pub open spec fn spec_get_coords(&self) -> Position {
        (self.row, self.col)
    }

    /// The coordinates, without the direction.
    #[verifier::when_used_as_spec(spec_get_coords)]
    pub fn get_coords(&self) -> (p: Position)
        ensures
            p == self.spec_get_coords(),
    {
        (self.row, self.col)
    }

    /// The cell `spaces` steps from here in direction `dir`, as integers.
    pub open spec fn offset(self, dir: Direction, spaces: int) -> (int, int) {
        (self.row + dir.spec_vector().0 * spaces, self.col + dir.spec_vector().1 * spaces)
    }

    /// Whether the cell `spaces` steps away in direction `dir` has coordinates
    /// that an `i8` holds.
    pub open spec fn offset_fits(self, dir: Direction, spaces: int) -> bool {
        &&& i8::MIN <= spaces <= i8::MAX
        &&& i8::MIN <= dir.spec_vector().0 * spaces <= i8::MAX
        &&& i8::MIN <= dir.spec_vector().1 * spaces <= i8::MAX
        &&& i8::MIN <= self.offset(dir, spaces).0 <= i8::MAX
        &&& i8::MIN <= self.offset(dir, spaces).1 <= i8::MAX
    }

    pub open spec fn spec_get_neighbor_coords(&self, dir: Direction) -> Position {
        ((self.row + dir.spec_vector().0) as i8, (self.col + dir.spec_vector().1) as i8)
    }

    /// The coordinates of the cell next to this one in direction `dir`.
    #[verifier::when_used_as_spec(spec_get_neighbor_coords)]
    pub fn get_neighbor_coords(&self, dir: Direction) -> (p: Position)
        requires
            self.offset_fits(dir, 1),
        ensures
            p == self.spec_get_neighbor_coords(dir),
            (p.0 as int, p.1 as int) == self.offset(dir, 1),
    {
        let v = dir.vector();
        (self.row + v.0, self.col + v.1)
    }

    pub open spec fn spec_get_ahead_coords(&self, spaces: i8) -> Position {
        (
            (self.row + self.dir.spec_vector().0 * spaces) as i8,
            (self.col + self.dir.spec_vector().1 * spaces) as i8,
        )
    }

    /// The coordinates `spaces` steps ahead, in the direction this location faces.
    #[verifier::when_used_as_spec(spec_get_ahead_coords)]
    pub fn get_ahead_coords(&self, spaces: i8) -> (p: Position)
        requires
            self.offset_fits(self.dir, spaces as int),
        ensures
            p == self.spec_get_ahead_coords(spaces),
            (p.0 as int, p.1 as int) == self.offset(self.dir, spaces as int),
    {
        let v = self.dir.vector();
        (self.row + v.0 * spaces, self.col + v.1 * spaces)
    }

    /// The location one step ahead of `loc2`, facing as `loc2` does.
    pub open spec fn spec_advance_from(loc2: LocationState) -> LocationState {
        LocationState {
            row: loc2.spec_get_ahead_coords(1).0,
            col: loc2.spec_get_ahead_coords(1).1,
            dir: loc2.dir,
        }
    }

    /// Makes this location the one a step ahead of `loc2`, facing as `loc2` does.
    pub fn advance_from(&mut self, loc2: LocationState)
        requires
            loc2.offset_fits(loc2.dir, 1),
        ensures
            *final(self) == Self::spec_advance_from(loc2),
    {
        let (row, col) = loc2.get_ahead_coords(1);
        self.row = row;
        self.col = col;
        self.dir = loc2.dir;
    }

    /// Moves this location to `coords`, keeping its direction.
    pub fn update_coords(&mut self, coords: Position)
        ensures
            *final(self) == (LocationState { row: coords.0, col: coords.1, dir: old(self).dir }),
    {
        self.row = coords.0;
        self.col = coords.1;
    }

    /// The packed position: a byte for the row and one for the column, each with
    /// the step of the direction along that axis in its top two bits.
    pub open spec fn spec_to_bytes(self) -> Seq<u8> {
        seq![
            pack_axis(self.dir.spec_vector().0, self.row),
            pack_axis(self.dir.spec_vector().1, self.col),
        ]
    }

    /// Packs the location into two bytes.
    pub fn to_bytes(&self) -> (b: [u8; 2])
        ensures
            b@ == self.spec_to_bytes(),
    {
        let v = self.dir.vector();
        let b = [axis_byte(v.0, self.row), axis_byte(v.1, self.col)];
        assert(b@ =~= self.spec_to_bytes());
        b
    }

    /// What two bytes decode to: the low six bits of each are a coordinate, the
    /// top two bits of both together name the direction.
    pub open spec fn spec_from_bytes(b0: u8, b1: u8) -> Result<LocationState, DecodeError> {
        match unpack_dir(b0, b1) {
            Some(dir) => Ok(LocationState { row: (b0 % 64) as i8, col: (b1 % 64) as i8, dir }),
            None => Err(DecodeError::InvalidDirection),
        }
    }

    /// Unpacks a location from two bytes.
    pub fn from_bytes(bytes: [u8; 2]) -> (r: Result<Self, DecodeError>)
        ensures
            r == Self::spec_from_bytes(bytes@[0], bytes@[1]),
    {
        let row: i8 = (bytes[0] % 64) as i8;
        let col: i8 = (bytes[1] % 64) as i8;
        let d_row: u8 = bytes[0] / 64;
        let d_col: u8 = bytes[1] / 64;
        let dir = if d_row == 0 && d_col == 0 {
            Direction::Stay
        } else if d_row == 3 && d_col == 0 {
            Direction::Up
        } else if d_row == 1 && d_col == 0 {
            Direction::Down
        } else if d_row == 0 && d_col == 3 {
            Direction::Left
        } else if d_row == 0 && d_col == 1 {
            Direction::Right
        } else {
            return Err(DecodeError::InvalidDirection);
        };
        Ok(Self { row, col, dir })
    }
}

/// One byte of a packed position.
fn axis_byte(delta: i8, coord: i8) -> (b: u8)
    ensures
        b == pack_axis(delta, coord),
{
    let bits: u8 = if delta == 1 {
        0x40
    } else if delta == -1 {
        0xC0
    } else {
        0
    };
    bits | (#[verifier::truncate] (coord as u8))
}

/// For a coordinate of six bits, packing adds the direction bits on top, and
/// the two parts can be read back by dividing by 64.
pub proof fn lemma_pack_axis(delta: i8, coord: i8)
    requires
        0 <= coord < 64,
        -1 <= delta <= 1,
    ensures
        pack_axis(delta, coord) % 64 == coord,
        pack_axis(delta, coord) / 64 == (if delta == 1 { 1int } else if delta == -1 { 3 } else { 0 }),
{
    let c = coord as u8;
    assert(c < 64);
    assert((0x40u8 | c) % 64 == c && (0x40u8 | c) / 64 == 1) by (bit_vector)
        requires c < 64;
    assert((0xC0u8 | c) % 64 == c && (0xC0u8 | c) / 64 == 3) by (bit_vector)
        requires c < 64;
    assert((0u8 | c) % 64 == c && (0u8 | c) / 64 == 0) by (bit_vector)
        requires c < 64;
}

/// A location with six-bit coordinates is read back from its packed form as it was.
pub proof fn lemma_location_round_trip(loc: LocationState)
    requires
        loc.packable(),
    ensures
        LocationState::spec_from_bytes(loc.spec_to_bytes()[0], loc.spec_to_bytes()[1]) == Ok::<
            LocationState,
            DecodeError,
        >(loc),
{
    lemma_pack_axis(loc.dir.spec_vector().0, loc.row);
    lemma_pack_axis(loc.dir.spec_vector().1, loc.col);
}

/// The squared Euclidean distance between two cells.
pub open spec fn spec_dist_sq(a: Position, b: Position) -> int {
    (b.0 - a.0) * (b.0 - a.0) + (b.1 - a.1) * (b.1 - a.1)
}

/// The squared Euclidean distance between two cells.
pub fn dist_sq(a: Position, b: Position) -> (d: u32)
    ensures
        d == spec_dist_sq(a, b),
{
    let row1: i32 = a.0 as i32;
    let col1: i32 = a.1 as i32;
    let row2: i32 = b.0 as i32;
    let col2: i32 = b.1 as i32;
    let dx: i32 = row2 - row1;
    let dy: i32 = col2 - col1;
    assert(-255 <= dx <= 255 && -255 <= dy <= 255);
    assert(0 <= dx * dx <= 65025) by (nonlinear_arith)
        requires -255 <= dx <= 255;
    assert(0 <= dy * dy <= 65025) by (nonlinear_arith)
        requires -255 <= dy <= 255;
    (dx * dx + dy * dy) as u32
}

} // verus!
