use vstd::prelude::*;
use crate::array::array_from_fn;
use crate::game_modes::GameMode;
use crate::game_state::GameState;
use crate::ghost_state::{GhostColor, GhostState};
use crate::location::{empty_loc, LocationState};
use crate::variables::{FRUIT_DURATION, INIT_WALLS, MAZE_ROWS};

verus! {

/// Why a byte snapshot could not be turned into a game state.
#[derive(Copy, Clone, Debug, PartialEq, Eq, Structural)]
pub enum DecodeError {
    /// The buffer ends before the last field of the fixed layout.
    UnexpectedEof,
    /// The combined mode/pause byte is not 0, 1 or 2.
    InvalidMode,
    /// The two direction bits of a packed position name no direction.
    InvalidDirection,
    /// The fields were read, but together they are not a valid game state.
    InvalidState,
    /// The decoded state holds an agent that has no direction to move in.
    NoValidMove,
}

/// Length in bytes of one encoded game state.
pub const SNAPSHOT_LEN: usize = 152;

/// The big-endian value of two bytes.
pub open spec fn be_u16(hi: u8, lo: u8) -> u16 {
    (hi as int * 256 + lo as int) as u16
}

/// The big-endian value of four bytes.
pub open spec fn be_u32(b0: u8, b1: u8, b2: u8, b3: u8) -> u32 {
    (b0 as int * 16777216 + b1 as int * 65536 + b2 as int * 256 + b3 as int) as u32
}

/// The two bytes of `x`, most significant first.
pub open spec fn u16_be_bytes(x: u16) -> Seq<u8> {
    seq![(x / 256) as u8, (x % 256) as u8]
}

/// The four bytes of `x`, most significant first.
pub open spec fn u32_be_bytes(x: u32) -> Seq<u8> {
    seq![
        (x / 16777216) as u8,
        ((x / 65536) % 256) as u8,
        ((x / 256) % 256) as u8,
        (x % 256) as u8,
    ]
}

/// Reads a big-endian `u16` at `at`.
pub fn read_u16(bytes: &[u8], at: usize) -> (x: u16)
    requires
        at + 2 <= bytes@.len(),
    ensures
        x == be_u16(bytes@[at as int], bytes@[at + 1]),
{
    let hi: u16 = bytes[at] as u16;
    let lo: u16 = bytes[at + 1] as u16;
    hi * 256 + lo
}

/// Reads a big-endian `u32` at `at`.
pub fn read_u32(bytes: &[u8], at: usize) -> (x: u32)
    requires
        at + 4 <= bytes@.len(),
    ensures
        x == be_u32(bytes@[at as int], bytes@[at + 1], bytes@[at + 2], bytes@[at + 3]),
{
    let b0: u32 = bytes[at] as u32;
    let b1: u32 = bytes[at + 1] as u32;
    let b2: u32 = bytes[at + 2] as u32;
    let b3: u32 = bytes[at + 3] as u32;
    b0 * 16777216 + b1 * 65536 + b2 * 256 + b3
}

/// Appends the two big-endian bytes of `x` to `out`.
pub fn push_u16(out: &mut Vec<u8>, x: u16)
    ensures
        final(out)@ == old(out)@ + u16_be_bytes(x),
{
    out.push((x / 256) as u8);
    out.push((x % 256) as u8);
}

/// Appends the four big-endian bytes of `x` to `out`.
pub fn push_u32(out: &mut Vec<u8>, x: u32)
    ensures
        final(out)@ == old(out)@ + u32_be_bytes(x),
{
    out.push((x / 16777216) as u8);
    out.push(((x / 65536) % 256) as u8);
    out.push(((x / 256) % 256) as u8);
    out.push((x % 256) as u8);
}

/// Reading back what was written gives the same number.
pub proof fn lemma_u16_round_trip(x: u16)
    ensures
        be_u16(u16_be_bytes(x)[0], u16_be_bytes(x)[1]) == x,
{
}

/// Reading back what was written gives the same number.
pub proof fn lemma_u32_round_trip(x: u32)
    ensures
        be_u32(u32_be_bytes(x)[0], u32_be_bytes(x)[1], u32_be_bytes(x)[2], u32_be_bytes(x)[3])
            == x,
{
}

/// The number of bits that are set in `w`.
pub open spec fn spec_count_ones(w: u32) -> nat
    decreases w,
{
    if w == 0 {
        0
    } else {
        (w % 2) as nat + spec_count_ones(w / 2)
    }
}

/// A word below 2 to the power `k` has at most `k` bits set.
proof fn lemma_count_ones_bound(w: u32, k: nat)
    requires
        (w as int) < vstd::arithmetic::power2::pow2(k),
    ensures
        spec_count_ones(w) <= k,
    decreases k,
{
    if w != 0 {
        if k == 0 {
            vstd::arithmetic::power2::lemma2_to64();
        } else {
            vstd::arithmetic::power2::lemma_pow2_unfold(k);
            lemma_count_ones_bound(w / 2, (k - 1) as nat);
        }
    }
}

/// The number of bits that are set in the lowest four bits of `n`.
pub open spec fn nibble_ones(n: u32) -> nat {
    (n % 2 + n / 2 % 2 + n / 4 % 2 + n / 8 % 2) as nat
}

/// The bits that are set in a word are those of its lowest four bits and
/// those above them.
proof fn lemma_count_ones_nibble(w: u32)
    ensures
        spec_count_ones(w) == nibble_ones(w) + spec_count_ones(w / 16),
{
    let w1 = w / 2;
    let w2 = w1 / 2;
    let w3 = w2 / 2;
    let w4 = w3 / 2;
    assert(w2 == w / 4 && w3 == w / 8 && w4 == w / 16);
    assert(spec_count_ones(w) == w % 2 + spec_count_ones(w1));
    assert(spec_count_ones(w1) == w1 % 2 + spec_count_ones(w2));
    assert(spec_count_ones(w2) == w2 % 2 + spec_count_ones(w3));
    assert(spec_count_ones(w3) == w3 % 2 + spec_count_ones(w4));
}

/// The bits that are set in a word, counted four bits at a time.
pub proof fn lemma_count_ones_by_nibbles(w: u32)
    ensures
        spec_count_ones(w) == nibble_ones(w) + nibble_ones(w / 0x10) + nibble_ones(w / 0x100)
            + nibble_ones(w / 0x1000) + nibble_ones(w / 0x10000) + nibble_ones(w / 0x100000)
            + nibble_ones(w / 0x1000000) + nibble_ones(w / 0x10000000),
{
    lemma_count_ones_nibble(w);
    lemma_count_ones_nibble(w / 0x10);
    lemma_count_ones_nibble(w / 0x100);
    lemma_count_ones_nibble(w / 0x1000);
    lemma_count_ones_nibble(w / 0x10000);
    lemma_count_ones_nibble(w / 0x100000);
    lemma_count_ones_nibble(w / 0x1000000);
    lemma_count_ones_nibble(w / 0x10000000);
    assert(w / 0x10 / 16 == w / 0x100);
    assert(w / 0x100 / 16 == w / 0x1000);
    assert(w / 0x1000 / 16 == w / 0x10000);
    assert(w / 0x10000 / 16 == w / 0x100000);
    assert(w / 0x100000 / 16 == w / 0x1000000);
    assert(w / 0x1000000 / 16 == w / 0x10000000);
    assert(w / 0x10000000 / 16 == 0);
}

/// No word has more than 32 bits set.
pub proof fn lemma_count_ones_at_most_32(w: u32)
    ensures
        spec_count_ones(w) <= 32,
{
    vstd::arithmetic::power2::lemma2_to64();
    lemma_count_ones_bound(w, 32);
}

/// Counts the bits that are set in `w`.
pub fn count_ones(w: u32) -> (c: u32)
    ensures
        c == spec_count_ones(w),
        c <= 32,
{
    proof {
        lemma_count_ones_at_most_32(w);
    }
    let mut rest: u32 = w;
    let mut c: u32 = 0;
    while rest != 0
        invariant
            c + spec_count_ones(rest) == spec_count_ones(w),
            spec_count_ones(w) <= 32,
        decreases rest,
    {
        c = c + rest % 2;
        rest = rest / 2;
    }
    c
}

/// The number of pellets in the first `n` rows of a board.
pub open spec fn pellet_total_upto(rows: Seq<u32>, n: int) -> nat
    decreases n,
{
    if n <= 0 {
        0
    } else {
        pellet_total_upto(rows, n - 1) + spec_count_ones(rows[n - 1])
    }
}

/// The number of pellets on a board: the bits that are set in all its rows.
pub open spec fn pellet_total(rows: Seq<u32>) -> nat {
    pellet_total_upto(rows, rows.len() as int)
}

/// The first `n` rows of a board hold at most `32 * n` pellets.
pub proof fn lemma_pellet_total_bound(rows: Seq<u32>, n: int)
    requires
        0 <= n <= rows.len(),
    ensures
        pellet_total_upto(rows, n) <= 32 * n,
    decreases n,
{
    if n > 0 {
        lemma_pellet_total_bound(rows, n - 1);
        lemma_count_ones_at_most_32(rows[n - 1]);
    }
}

/// Changing one row of a board changes the number of pellets by as much as
/// the row gains or loses.
pub proof fn lemma_pellet_total_update(rows: Seq<u32>, i: int, w: u32, n: int)
    requires
        0 <= i < rows.len(),
        0 <= n <= rows.len(),
    ensures
        pellet_total_upto(rows.update(i, w), n) == if i < n {
            pellet_total_upto(rows, n) - spec_count_ones(rows[i]) + spec_count_ones(w)
        } else {
            pellet_total_upto(rows, n) as int
        },
    decreases n,
{
    if n > 0 {
        lemma_pellet_total_update(rows, i, w, n - 1);
    }
}

/// Clearing a bit that is set leaves one bit less set.
pub proof fn lemma_count_ones_clear(w: u32, c: u32)
    requires
        c < 32,
        (w >> c) & 1 == 1,
    ensures
        spec_count_ones(w & !(1u32 << c)) == spec_count_ones(w) - 1,
    decreases c,
{
    let cleared = w & !(1u32 << c);
    if c == 0 {
        assert(cleared % 2 == 0 && cleared / 2 == w / 2 && w % 2 == 1) by (bit_vector)
            requires
                cleared == w & !(1u32 << 0u32),
                (w >> 0u32) & 1 == 1,
        ;
    } else {
        let below = (c - 1) as u32;
        assert(cleared % 2 == w % 2 && cleared / 2 == (w / 2) & !(1u32 << below) && ((w / 2)
            >> below) & 1 == 1 && w != 0) by (bit_vector)
            requires
                cleared == w & !(1u32 << c),
                (w >> c) & 1 == 1,
                0 < c < 32,
                below == c - 1,
        ;
        lemma_count_ones_clear(w / 2, below);
        assert(cleared != 0 || w % 2 == 0);
    }
}

/// The bytes of the rows of a board: four for each row, most significant
/// first, the rows in order.
pub open spec fn rows_bytes(rows: Seq<u32>) -> Seq<u8>
    decreases rows.len(),
{
    if rows.len() == 0 {
        Seq::empty()
    } else {
        rows_bytes(rows.drop_last()) + u32_be_bytes(rows.last())
    }
}

/// The bytes of `n` rows are `4 * n`, and row `r` is found at `4 * r`.
pub proof fn lemma_rows_bytes(rows: Seq<u32>)
    ensures
        rows_bytes(rows).len() == 4 * rows.len(),
        forall|r: int, j: int|
            0 <= r < rows.len() && 0 <= j < 4 ==> #[trigger] rows_bytes(rows)[4 * r + j]
                == u32_be_bytes(rows[r])[j],
    decreases rows.len(),
{
    if rows.len() > 0 {
        lemma_rows_bytes(rows.drop_last());
        assert forall|r: int, j: int| 0 <= r < rows.len() && 0 <= j < 4 implies #[trigger] rows_bytes(
            rows,
        )[4 * r + j] == u32_be_bytes(rows[r])[j] by {
            if r < rows.len() - 1 {
                assert(rows_bytes(rows.drop_last())[4 * r + j] == u32_be_bytes(
                    rows.drop_last()[r],
                )[j]);
            }
        }
    }
}

/// The position that the snapshot `bytes` holds at `at`.
pub open spec fn loc_at(bytes: Seq<u8>, at: int) -> Result<LocationState, DecodeError> {
    LocationState::spec_from_bytes(bytes[at], bytes[at + 1])
}

/// The position of the ghost with index `i` that the snapshot `bytes` holds.
pub open spec fn ghost_loc_at(bytes: Seq<u8>, i: int) -> Result<LocationState, DecodeError> {
    loc_at(bytes, 10 + 3 * i)
}

/// The row of pellets with index `r` that the snapshot `bytes` holds.
pub open spec fn row_at(bytes: Seq<u8>, r: int) -> u32 {
    be_u32(bytes[28 + 4 * r], bytes[29 + 4 * r], bytes[30 + 4 * r], bytes[31 + 4 * r])
}

/// The ghost with index `i` that the snapshot `bytes` holds: its position and
/// the byte after it. A snapshot says nothing of trapped steps or of being eaten.
pub open spec fn ghost_at(bytes: Seq<u8>, i: int) -> GhostState {
    GhostState::spec_from_bytes(
        GhostColor::spec_at(i as usize),
        ghost_loc_at(bytes, i).unwrap(),
        bytes[12 + 3 * i],
        0,
    )
}

/// Why the fields of the snapshot `bytes` cannot be read, if they cannot: it
/// is shorter than a snapshot, or its mode byte is above 2, or one of its six
/// positions names no direction.
pub open spec fn snapshot_error(bytes: Seq<u8>) -> Option<DecodeError> {
    if bytes.len() < SNAPSHOT_LEN {
        Some(DecodeError::UnexpectedEof)
    } else if bytes[3] > 2 {
        Some(DecodeError::InvalidMode)
    } else if loc_at(bytes, 10) is Err || loc_at(bytes, 13) is Err || loc_at(bytes, 16) is Err
        || loc_at(bytes, 19) is Err || loc_at(bytes, 22) is Err || loc_at(bytes, 24) is Err {
        Some(DecodeError::InvalidDirection)
    } else {
        None
    }
}

/// Whether `s` is the state whose fields the snapshot `bytes` holds, with the
/// given seed. What a snapshot does not hold is as in a state that was just
/// read: no steps until the level speeds up, no combo, planned locations
/// equal to the current ones, and the walls of the maze.
pub open spec fn snapshot_holds(bytes: Seq<u8>, seed: u64, s: GameState) -> bool {
    &&& s.curr_ticks == be_u16(bytes[0], bytes[1])
    &&& s.update_period == bytes[2]
    &&& s.mode == if bytes[3] == 1 {
        GameMode::SCATTER
    } else {
        GameMode::CHASE
    }
    &&& s.paused == (bytes[3] == 0)
    &&& s.mode_steps == bytes[4]
    &&& s.level_steps == 0
    &&& s.curr_score == be_u16(bytes[6], bytes[7])
    &&& s.curr_level == bytes[8]
    &&& s.curr_lives == bytes[9]
    &&& forall|i: int| 0 <= i < 4 ==> #[trigger] s.ghosts[i] == ghost_at(bytes, i)
    &&& s.pacman_loc == loc_at(bytes, 22).unwrap()
    &&& s.fruit_loc == loc_at(bytes, 24).unwrap()
    &&& s.fruit_steps == bytes[26]
    &&& s.ghost_combo == 0
    &&& forall|r: int| 0 <= r < MAZE_ROWS ==> #[trigger] s.pellets[r] == row_at(bytes, r)
    &&& s.num_pellets == pellet_total(s.pellets@)
    &&& s.walls@ == INIT_WALLS@
    &&& s.seed == seed
}

/// A snapshot holds the fields of one state only.
pub proof fn lemma_snapshot_holds_one(bytes: Seq<u8>, seed: u64, a: GameState, b: GameState)
    requires
        snapshot_holds(bytes, seed, a),
        snapshot_holds(bytes, seed, b),
    ensures
        a == b,
{
    assert(a.ghosts =~= b.ghosts);
    assert(a.pellets =~= b.pellets);
    assert(a.walls =~= b.walls);
}

/// The state whose fields the snapshot `bytes` holds, before it is checked
/// and planned.
pub open spec fn raw_state(bytes: Seq<u8>, seed: u64) -> GameState {
    choose|s: GameState| snapshot_holds(bytes, seed, s)
}

/// Whether `r` is what decoding the snapshot `bytes` can give. A snapshot
/// whose fields cannot be read gives the error that says why. One whose fields
/// are not a valid state gives `InvalidState`, and one in which a ghost that
/// chooses a direction has none gives `NoValidMove`. Any other gives the state
/// that it holds, with all ghosts planned.
pub open spec fn decoded(bytes: Seq<u8>, seed: u64, r: Result<GameState, DecodeError>) -> bool {
    match snapshot_error(bytes) {
        Some(e) => r == Err::<GameState, DecodeError>(e),
        None => {
            let raw = raw_state(bytes, seed);
            if !raw.wf() {
                r == Err::<GameState, DecodeError>(DecodeError::InvalidState)
            } else if !raw.plannable() {
                r == Err::<GameState, DecodeError>(DecodeError::NoValidMove)
            } else {
                r is Ok && raw.planned(r.unwrap())
            }
        },
    }
}

impl GameState {
    /// The byte that holds mode and pause together: 0 for a paused game, 1
    /// for scatter, 2 for chase.
    pub open spec fn mode_byte(&self) -> u8 {
        if self.paused {
            0
        } else {
            match self.mode {
                GameMode::SCATTER => 1,
                GameMode::CHASE => 2,
            }
        }
    }

    /// The byte that tells the length of the current mode, 255 for a paused game.
    pub open spec fn duration_byte(&self) -> u8 {
        if self.paused {
            255
        } else {
            self.mode.spec_duration()
        }
    }

    /// The first ten bytes of a snapshot: ticks (the low 16 bits), update
    /// period, mode, steps of the mode, length of the mode, score, level, lives.
    pub open spec fn header_bytes(&self) -> Seq<u8> {
        u16_be_bytes((self.curr_ticks % 65536) as u16) + seq![
            self.update_period,
            self.mode_byte(),
            self.mode_steps,
            self.duration_byte(),
        ] + u16_be_bytes(self.curr_score) + seq![self.curr_level, self.curr_lives]
    }

    /// The three bytes of a ghost in a snapshot: its packed position, then
    /// its frightened steps and spawning flag.
    pub open spec fn ghost_bytes(&self, i: int) -> Seq<u8> {
        self.ghosts[i].loc.spec_to_bytes() + seq![self.ghosts[i].spec_get_aux()]
    }

    /// The snapshot of a state: header, the four ghosts, Pacman, the fruit
    /// with its steps and its full time, and the rows of pellets.
    pub open spec fn spec_to_bytes(&self) -> Seq<u8> {
        self.header_bytes() + self.ghost_bytes(0) + self.ghost_bytes(1) + self.ghost_bytes(2)
            + self.ghost_bytes(3) + self.pacman_loc.spec_to_bytes()
            + self.fruit_loc.spec_to_bytes() + seq![self.fruit_steps, FRUIT_DURATION]
            + rows_bytes(self.pellets@)
    }

    /// Encodes the state as a snapshot of 152 bytes.
    pub fn to_bytes(&self) -> (b: Vec<u8>)
        ensures
            b@ == self.spec_to_bytes(),
            b@.len() == SNAPSHOT_LEN,
    {
        let mut b: Vec<u8> = Vec::new();
        push_u16(&mut b, (self.curr_ticks % 65536) as u16);
        b.push(self.update_period);
        b.push(
            if self.paused {
                0
            } else {
                match self.mode {
                    GameMode::SCATTER => 1,
                    GameMode::CHASE => 2,
                }
            },
        );
        b.push(self.mode_steps);
        b.push(
            if self.paused {
                255
            } else {
                self.mode.duration()
            },
        );
        push_u16(&mut b, self.curr_score);
        b.push(self.curr_level);
        b.push(self.curr_lives);
        assert(b@ =~= self.header_bytes());
        let mut g: usize = 0;
        while g < 4
            invariant
                g <= 4,
                b@ == self.header_bytes() + (if g > 0 {
                    self.ghost_bytes(0)
                } else {
                    Seq::empty()
                }) + (if g > 1 {
                    self.ghost_bytes(1)
                } else {
                    Seq::empty()
                }) + (if g > 2 {
                    self.ghost_bytes(2)
                } else {
                    Seq::empty()
                }) + (if g > 3 {
                    self.ghost_bytes(3)
                } else {
                    Seq::empty()
                }),
            decreases 4 - g,
        {
            let loc_bytes = self.ghosts[g].loc.to_bytes();
            b.push(loc_bytes[0]);
            b.push(loc_bytes[1]);
            b.push(self.ghosts[g].get_aux());
            g += 1;
        }
        let pacman_bytes = self.pacman_loc.to_bytes();
        b.push(pacman_bytes[0]);
        b.push(pacman_bytes[1]);
        let fruit_bytes = self.fruit_loc.to_bytes();
        b.push(fruit_bytes[0]);
        b.push(fruit_bytes[1]);
        b.push(self.fruit_steps);
        b.push(FRUIT_DURATION);
        let ghost fixed = b@;
        assert(fixed =~= self.header_bytes() + self.ghost_bytes(0) + self.ghost_bytes(1)
            + self.ghost_bytes(2) + self.ghost_bytes(3) + self.pacman_loc.spec_to_bytes()
            + self.fruit_loc.spec_to_bytes() + seq![self.fruit_steps, FRUIT_DURATION]);
        let mut i: usize = 0;
        while i < 31
            invariant
                i <= 31,
                fixed.len() == 28,
                b@ == fixed + rows_bytes(self.pellets@.take(i as int)),
                b@.len() == 28 + 4 * i,
            decreases 31 - i,
        {
            push_u32(&mut b, self.pellets[i]);
            proof {
                let rows = self.pellets@.take(i + 1);
                assert(rows.drop_last() =~= self.pellets@.take(i as int));
                assert(rows.last() == self.pellets@[i as int]);
                assert(b@ =~= fixed + rows_bytes(rows));
            }
            i += 1;
        }
        assert(self.pellets@.take(31) =~= self.pellets@);
        b
    }

    /// Decodes a snapshot, checks the state that it holds, and plans the
    /// ghosts in it. `seed` becomes the seed of the state.
    pub fn from_bytes(bytes: &[u8], seed: u64) -> (r: Result<Self, DecodeError>)
        ensures
            decoded(bytes@, seed, r),
            r is Ok ==> r.unwrap().wf() && r.unwrap().pellets_counted(),
    {
        if bytes.len() < SNAPSHOT_LEN {
            return Err(DecodeError::UnexpectedEof);
        }
        let curr_ticks: u32 = read_u16(bytes, 0) as u32;
        let update_period = bytes[2];
        let (mode, paused) = match bytes[3] {
            0 => (GameMode::CHASE, true),
            1 => (GameMode::SCATTER, false),
            2 => (GameMode::CHASE, false),
            _ => { return Err(DecodeError::InvalidMode); },
        };
        let mode_steps = bytes[4];
        let curr_score = read_u16(bytes, 6);
        let curr_level = bytes[8];
        let curr_lives = bytes[9];
        let mut ghosts = [GhostState::from_bytes(GhostColor::Red, empty_loc(), 0, 0);4];
        let mut i: usize = 0;
        while i < 4
            invariant
                i <= 4,
                bytes@.len() >= SNAPSHOT_LEN,
                bytes@[3] <= 2,
                forall|j: int| 0 <= j < i ==> (#[trigger] ghost_loc_at(bytes@, j)) is Ok,
                forall|j: int| 0 <= j < i ==> #[trigger] ghosts[j] == ghost_at(bytes@, j),
            decreases 4 - i,
        {
            let packed = [bytes[10 + 3 * i], bytes[11 + 3 * i]];
            let loc = match LocationState::from_bytes(packed) {
                Ok(loc) => loc,
                Err(e) => {
                    assert(ghost_loc_at(bytes@, i as int) is Err);
                    assert(i == 0 || i == 1 || i == 2 || i == 3);
                    return Err(e);
                },
            };
            ghosts[i] = GhostState::from_bytes(GhostColor::at(i), loc, bytes[12 + 3 * i], 0);
            i += 1;
        }
        assert(ghost_loc_at(bytes@, 0) is Ok && ghost_loc_at(bytes@, 1) is Ok && ghost_loc_at(
            bytes@,
            2,
        ) is Ok && ghost_loc_at(bytes@, 3) is Ok);
        let pacman_loc = match LocationState::from_bytes([bytes[22], bytes[23]]) {
            Ok(loc) => loc,
            Err(e) => { return Err(e); },
        };
        let fruit_loc = match LocationState::from_bytes([bytes[24], bytes[25]]) {
            Ok(loc) => loc,
            Err(e) => { return Err(e); },
        };
        let fruit_steps = bytes[26];
        let read_row = |r: usize| -> (w: u32)
            requires
                r < 31,
                bytes@.len() >= SNAPSHOT_LEN,
            ensures
                w == row_at(bytes@, r as int),
            { read_u32(bytes, 28 + 4 * r) };
        let pellets: [u32; 31] = array_from_fn(read_row);
        let mut total: u32 = 0;
        let mut r: usize = 0;
        while r < 31
            invariant
                r <= 31,
                total == pellet_total_upto(pellets@, r as int),
                total <= 32 * r,
            decreases 31 - r,
        {
            let ones = count_ones(pellets[r]);
            total = total + ones;
            r += 1;
        }
        let mut s = Self {
            curr_ticks,
            update_period,
            mode,
            paused,
            mode_steps,
            level_steps: 0,
            curr_score,
            curr_level,
            curr_lives,
            pacman_loc,
            fruit_loc,
            fruit_steps,
            ghosts,
            ghost_combo: 0,
            num_pellets: total as u16,
            pellets,
            walls: INIT_WALLS,
            seed,
        };
        proof {
            assert(snapshot_error(bytes@) is None);
            assert(snapshot_holds(bytes@, seed, s));
            lemma_snapshot_holds_one(bytes@, seed, s, raw_state(bytes@, seed));
        }
        if !s.is_wf() {
            return Err(DecodeError::InvalidState);
        }
        if !s.can_plan() {
            return Err(DecodeError::NoValidMove);
        }
        s.plan_all_ghosts();
        Ok(s)
    }
}

} // verus!
