use vstd::prelude::*;
use crate::array::array_from_fn;
use crate::game_modes::GameMode;
use crate::ghost_state::{GhostColor, GhostState};
use crate::location::LocationState;
use crate::variables::{
    fruit_spawn_loc, ghost_scatter_target, pacman_spawn_loc, spec_fruit_spawn_loc,
    spec_pacman_spawn_loc, INIT_LEVEL, INIT_LIVES, INIT_MODE, INIT_PELLETS, INIT_PELLET_COUNT, INIT_UPDATE_PERIOD,
    INIT_WALLS, LEVEL_DURATION, MAZE_ROWS,
};
use crate::wire::{
    count_ones, lemma_count_ones_by_nibbles, pellet_total, pellet_total_upto, spec_count_ones,
};

verus! {

/// The whole state of a game.
#[derive(Clone, Copy, Debug, PartialEq)]
pub struct GameState {
    /// Ticks since the game began.
    pub curr_ticks: u32,
    /// Ticks between two steps of the simulation.
    pub update_period: u8,
    /// The current mode; while the game is paused, the last mode it had.
    pub mode: GameMode,
    /// Whether the game is paused.
    pub paused: bool,
    /// Steps until the mode changes.
    pub mode_steps: u8,
    /// Steps until the level speeds up.
    pub level_steps: u16,
    pub curr_score: u16,
    pub curr_level: u8,
    pub curr_lives: u8,
    pub pacman_loc: LocationState,
    pub fruit_loc: LocationState,
    /// Steps until the fruit disappears; the fruit exists while this is not zero.
    pub fruit_steps: u8,
    /// The ghosts, in the order Red, Pink, Cyan, Orange.
    pub ghosts: [GhostState; 4],
    /// How many frightened ghosts were eaten since they were last frightened.
    pub ghost_combo: u8,
    /// One word for each row; bit `c` is set while column `c` holds a pellet.
    pub pellets: [u32; MAZE_ROWS],
    /// The number of pellets left.
    pub num_pellets: u16,
    /// One word for each row; bit `c` is set where column `c` is a wall.
    pub walls: [u32; MAZE_ROWS],
    /// Seeds the random choice of a frightened ghost; replaced after each draw.
    pub seed: u64,
}

impl GameState {
    /// Whether ghost `i` can be eaten: frightened and not eaten already.
    pub open spec fn edible(&self, i: int) -> bool {
        self.ghosts[i].fright_steps > 0 && !self.ghosts[i].eaten
    }

    /// The number of ghosts that can be eaten.
    pub open spec fn edible_count(&self) -> int {
        (if self.edible(0) { 1int } else { 0 }) + (if self.edible(1) { 1int } else { 0 }) + (if self.edible(2) { 1int } else { 0 })
            + (if self.edible(3) { 1int } else { 0 })
    }

    /// What the game asks of a state: the update period is at least 1, the
    /// walls are those of the maze, Pacman is in range, the fruit's location
    /// can be packed, each ghost is valid and has the color of its place, and
    /// the combo stays below 16, as the shift that pays for a ghost needs,
    /// until every ghost that can be eaten is paid for.
    pub open spec fn wf(&self) -> bool {
        &&& self.update_period >= 1
        &&& is_maze(self.walls)
        &&& self.pacman_loc.in_range()
        &&& self.fruit_loc.packable()
        &&& forall|i: int| 0 <= i < 4 ==> (#[trigger] self.ghosts[i]).wf()
        &&& forall|i: int| 0 <= i < 4 ==> (#[trigger] self.ghosts[i]).color.spec_index() == i
        &&& self.combo_has_room()
    }

    /// Whether the combo stays below 16, as the shift that pays for a ghost
    /// needs, until every ghost that can be eaten is paid for.
    pub open spec fn combo_has_room(&self) -> bool {
        self.ghost_combo + self.edible_count() <= 16
    }

    /// Whether the number of pellets is that of the pellets on the board.
    pub open spec fn pellets_counted(&self) -> bool {
        self.num_pellets == pellet_total(self.pellets@)
    }

    /// Whether the state is valid, as `wf` says.
    pub fn is_wf(&self) -> (b: bool)
        ensures
            b == self.wf(),
    {
        proof {
            lemma_is_maze(self.walls);
        }
        if self.update_period < 1 || !in_range(self.pacman_loc) || self.fruit_loc.row < 0
            || self.fruit_loc.row >= 64 || self.fruit_loc.col < 0 || self.fruit_loc.col >= 64 {
            return false;
        }
        let mut r: usize = 0;
        while r < 31
            invariant
                r <= 31,
                forall|k: int| 0 <= k < r ==> self.walls@[k] == INIT_WALLS@[k],
            decreases 31 - r,
        {
            if self.walls[r] != INIT_WALLS[r] {
                proof {
                    assert(self.walls@[r as int] != INIT_WALLS@[r as int]);
                    lemma_is_maze(self.walls);
                }
                return false;
            }
            r += 1;
        }
        assert(self.walls@ =~= INIT_WALLS@);
        let mut i: usize = 0;
        while i < 4
            invariant
                i <= 4,
                forall|j: int| 0 <= j < i ==> (#[trigger] self.ghosts[j]).wf(),
                forall|j: int| 0 <= j < i ==> (#[trigger] self.ghosts[j]).color.spec_index() == j,
            decreases 4 - i,
        {
            let g = self.ghosts[i];
            let target = ghost_scatter_target(g.color);
            if g.color.index() != i || g.fright_steps >= 64 || !heading_in_range(g.loc)
                || !heading_in_range(g.next_loc) || g.scatter_target != target || (g.eaten
                && !g.spawning) {
                return false;
            }
            i += 1;
        }
        self.has_combo_room()
    }

    /// Whether the combo has room for every ghost that can be eaten.
    pub fn has_combo_room(&self) -> (b: bool)
        ensures
            b == self.combo_has_room(),
    {
        let mut edible: u8 = 0;
        let mut i: usize = 0;
        while i < 4
            invariant
                i <= 4,
                edible == (if i > 0 && self.edible(0) { 1int } else { 0 }) + (if i > 1 && self.edible(
                    1,
                ) { 1int } else { 0 }) + (if i > 2 && self.edible(2) { 1int } else { 0 }) + (if i > 3
                    && self.edible(3) { 1int } else { 0 }),
            decreases 4 - i,
        {
            if self.ghosts[i].fright_steps > 0 && !self.ghosts[i].eaten {
                edible += 1;
            }
            i += 1;
        }
        self.ghost_combo <= 16 - edible
    }

    /// Whether the number of pellets is that of the pellets on the board.
    pub fn has_counted_pellets(&self) -> (b: bool)
        ensures
            b == self.pellets_counted(),
    {
        let mut total: u32 = 0;
        let mut r: usize = 0;
        while r < 31
            invariant
                r <= 31,
                total == pellet_total_upto(self.pellets@, r as int),
                total <= 32 * r,
            decreases 31 - r,
        {
            total = total + count_ones(self.pellets[r]);
            r += 1;
        }
        self.num_pellets as u32 == total
    }

    /// The state in which a game with the given seed begins.
    pub open spec fn spec_new_with_seed(seed: u64) -> GameState {
        GameState {
            curr_ticks: 0,
            update_period: INIT_UPDATE_PERIOD,
            mode: INIT_MODE,
            paused: true,
            mode_steps: INIT_MODE.spec_duration(),
            level_steps: LEVEL_DURATION,
            curr_score: 0,
            curr_level: INIT_LEVEL,
            curr_lives: INIT_LIVES,
            pacman_loc: spec_pacman_spawn_loc(),
            fruit_loc: spec_fruit_spawn_loc(),
            fruit_steps: 0,
            ghosts: [
                GhostState::spec_new(GhostColor::Red),
                GhostState::spec_new(GhostColor::Pink),
                GhostState::spec_new(GhostColor::Cyan),
                GhostState::spec_new(GhostColor::Orange),
            ],
            ghost_combo: 0,
            pellets: INIT_PELLETS,
            num_pellets: INIT_PELLET_COUNT,
            walls: INIT_WALLS,
            seed,
        }
    }

    /// Creates the state in which a game begins: paused, in the initial mode,
    /// on a full board, with every ghost waiting to spawn.
    pub fn new_with_seed(seed: u64) -> (s: Self)
        ensures
            s == Self::spec_new_with_seed(seed),
            s.wf(),
            s.pellets_counted(),
    {
        let make = |i: usize| -> (g: GhostState)
            requires
                i < 4,
            ensures
                g == GhostState::spec_new(GhostColor::spec_at(i)),
            { GhostState::new(GhostColor::at(i)) };
        let ghosts: [GhostState; 4] = array_from_fn(make);
        let s = Self {
            curr_ticks: 0,
            update_period: INIT_UPDATE_PERIOD,
            mode: INIT_MODE,
            paused: true,
            mode_steps: INIT_MODE.duration(),
            level_steps: LEVEL_DURATION,
            curr_score: 0,
            curr_level: INIT_LEVEL,
            curr_lives: INIT_LIVES,
            pacman_loc: pacman_spawn_loc(),
            fruit_loc: fruit_spawn_loc(),
            fruit_steps: 0,
            ghosts,
            ghost_combo: 0,
            pellets: INIT_PELLETS,
            num_pellets: INIT_PELLET_COUNT,
            walls: INIT_WALLS,
            seed,
        };
        proof {
            lemma_full_board();
            lemma_is_maze(s.walls);
            assert(s.ghosts@[0] == GhostState::spec_new(GhostColor::Red));
            assert(s.ghosts@[1] == GhostState::spec_new(GhostColor::Pink));
            assert(s.ghosts@[2] == GhostState::spec_new(GhostColor::Cyan));
            assert(s.ghosts@[3] == GhostState::spec_new(GhostColor::Orange));
            assert(s.ghosts =~= Self::spec_new_with_seed(seed).ghosts);
        }
        s
    }

    /// Counts one more tick.
    pub fn next_tick(&mut self)
        requires
            old(self).curr_ticks < u32::MAX,
        ensures
            *final(self) == old(self).spec_next_tick(),
    {
        self.curr_ticks += 1;
    }

    /// The state one tick later, with nothing else changed.
    pub open spec fn spec_next_tick(self) -> GameState {
        GameState { curr_ticks: (self.curr_ticks + 1) as u32, ..self }
    }

    /// The number of ticks between two steps of the simulation.
    pub fn get_update_period(&self) -> (period: u8)
        ensures
            period == self.update_period,
    {
        self.update_period
    }

    /// Sets the number of ticks between two steps of the simulation.
    pub fn set_update_period(&mut self, period: u8)
        ensures
            *final(self) == (GameState { update_period: period, ..*old(self) }),
    {
        self.update_period = period
    }

    /// The current score.
    pub fn get_score(&self) -> (score: u16)
        ensures
            score == self.curr_score,
    {
        self.curr_score
    }

    /// The state with `change` added to the score, which stops at 65535.
    pub open spec fn spec_increment_score(self, change: u16) -> GameState {
        GameState { curr_score: self.curr_score.saturating_add(change), ..self }
    }

    /// Adds `change` to the score, which stops at 65535.
    pub fn increment_score(&mut self, change: u16)
        ensures
            *final(self) == old(self).spec_increment_score(change),
    {
        self.curr_score = self.curr_score.saturating_add(change);
    }

    /// The current level.
    pub fn get_level(&self) -> (level: u8)
        ensures
            level == self.curr_level,
    {
        self.curr_level
    }

    /// The state on the given level, with the update period that suits it.
    pub open spec fn spec_set_level(self, level: u8) -> GameState {
        GameState { curr_level: level, update_period: level_period(level), ..self }
    }

    /// Sets the level, and the update period to what suits the level.
    pub fn set_level(&mut self, level: u8)
        ensures
            *final(self) == old(self).spec_set_level(level),
    {
        self.curr_level = level;
        let suggested_period: i32 = (INIT_UPDATE_PERIOD as i32) - 2 * ((level as i32) - 1);
        let period: i32 = if suggested_period < 1 {
            1
        } else {
            suggested_period
        };
        self.set_update_period(period as u8);
    }

    /// The state on the next level; on level 255 it is the same state.
    pub open spec fn spec_increment_level(self) -> GameState {
        if self.curr_level == 255 {
            self
        } else {
            self.spec_set_level((self.curr_level + 1) as u8)
        }
    }

    /// Moves to the next level, unless the level is 255 already.
    pub fn increment_level(&mut self)
        ensures
            *final(self) == old(self).spec_increment_level(),
    {
        let level = self.get_level();
        if level == 255 {
            return ;
        }
        self.set_level(self.curr_level + 1);
    }

    /// The number of lives left.
    pub fn get_lives(&self) -> (lives: u8)
        ensures
            lives == self.curr_lives,
    {
        self.curr_lives
    }

    /// Sets the number of lives left.
    pub fn set_lives(&mut self, lives: u8)
        ensures
            *final(self) == (GameState { curr_lives: lives, ..*old(self) }),
    {
        self.curr_lives = lives;
    }

    /// The state with a life less; with no life left it is the same state.
    pub open spec fn spec_decrement_lives(self) -> GameState {
        GameState { curr_lives: dec_u8(self.curr_lives), ..self }
    }

    /// Takes a life away, unless none is left.
    pub fn decrement_lives(&mut self)
        ensures
            *final(self) == old(self).spec_decrement_lives(),
    {
        let lives = self.get_lives();
        if lives == 0 {
            return ;
        }
        self.curr_lives -= 1;
    }

    /// The number of pellets left.
    pub fn get_num_pellets(&self) -> (n: u16)
        ensures
            n == self.num_pellets,
    {
        self.num_pellets
    }

    /// Counts the pellets down by one, stopping at zero.
    pub fn decrement_num_pellets(&mut self)
        ensures
            *final(self) == (GameState { num_pellets: dec_u16(old(self).num_pellets), ..*old(self) }),
    {
        if self.num_pellets != 0 {
            self.num_pellets -= 1;
        }
    }

    /// The state with every pellet of a full board back in place.
    pub open spec fn spec_reset_pellets(self) -> GameState {
        GameState { pellets: INIT_PELLETS, num_pellets: INIT_PELLET_COUNT, ..self }
    }

    /// Puts every pellet of a full board back in place.
    pub fn reset_pellets(&mut self)
        ensures
            *final(self) == old(self).spec_reset_pellets(),
            final(self).pellets_counted(),
    {
        proof {
            lemma_full_board();
        }
        self.pellets = INIT_PELLETS;
        self.num_pellets = INIT_PELLET_COUNT;
    }

    /// The number of steps until the fruit disappears.
    pub fn get_fruit_steps(&self) -> (steps: u8)
        ensures
            steps == self.fruit_steps,
    {
        self.fruit_steps
    }

    pub open spec fn spec_fruit_exists(&self) -> bool {
        self.fruit_steps > 0
    }

    /// Whether a fruit is on the board.
    #[verifier::when_used_as_spec(spec_fruit_exists)]
    pub fn fruit_exists(&self) -> (b: bool)
        ensures
            b == (self.fruit_steps > 0),
    {
        self.get_fruit_steps() > 0
    }

    /// Sets the number of steps until the fruit disappears.
    pub fn set_fruit_steps(&mut self, steps: u8)
        ensures
            *final(self) == (GameState { fruit_steps: steps, ..*old(self) }),
    {
        self.fruit_steps = steps;
    }

    /// Counts the steps of the fruit down by one, stopping at zero.
    pub fn decrement_fruit_steps(&mut self)
        ensures
            *final(self) == (GameState { fruit_steps: dec_u8(old(self).fruit_steps), ..*old(self) }),
    {
        if self.fruit_steps != 0 {
            self.fruit_steps -= 1;
        }
    }

    /// The number of steps until the level speeds up.
    pub fn get_level_steps(&self) -> (steps: u16)
        ensures
            steps == self.level_steps,
    {
        self.level_steps
    }

    /// Sets the number of steps until the level speeds up.
    pub fn set_level_steps(&mut self, steps: u16)
        ensures
            *final(self) == (GameState { level_steps: steps, ..*old(self) }),
    {
        self.level_steps = steps;
    }

    /// Counts the steps until the level speeds up down by one, stopping at zero.
    pub fn decrement_level_steps(&mut self)
        ensures
            *final(self) == (GameState { level_steps: dec_u16(old(self).level_steps), ..*old(self) }),
    {
        if self.level_steps != 0 {
            self.level_steps -= 1;
        }
    }
}

/// Whether `walls` are the walls of the maze.
pub closed spec fn is_maze(walls: [u32; MAZE_ROWS]) -> bool {
    walls@ == INIT_WALLS@
}

/// The walls of the maze are what `is_maze` accepts, and nothing else.
pub proof fn lemma_is_maze(walls: [u32; MAZE_ROWS])
    ensures
        is_maze(walls) <==> walls@ == INIT_WALLS@,
{
}

/// Whether both coordinates of `loc` lie in 0..=32.
fn in_range(loc: LocationState) -> (b: bool)
    ensures
        b == loc.in_range(),
{
    0 <= loc.row && loc.row <= 32 && 0 <= loc.col && loc.col <= 32
}

/// Whether `loc` and the cell ahead of it are in range.
fn heading_in_range(loc: LocationState) -> (b: bool)
    ensures
        b == loc.heading_in_range(),
{
    if !in_range(loc) {
        return false;
    }
    let ahead = loc.get_ahead_coords(1);
    0 <= ahead.0 && ahead.0 <= 32 && 0 <= ahead.1 && ahead.1 <= 32
}

/// A full board holds 244 pellets.
pub proof fn lemma_full_board()
    ensures
        pellet_total(INIT_PELLETS@) == INIT_PELLET_COUNT,
{
    lemma_count_ones_by_nibbles(0);
    lemma_count_ones_by_nibbles(0x7ff9ffe);
    lemma_count_ones_by_nibbles(0x4209042);
    lemma_count_ones_by_nibbles(0x7fffffe);
    lemma_count_ones_by_nibbles(0x4240242);
    lemma_count_ones_by_nibbles(0x7e79e7e);
    lemma_count_ones_by_nibbles(0x200040);
    lemma_count_ones_by_nibbles(0x73f9fce);
    lemma_count_ones_by_nibbles(0x1240248);
    lemma_count_ones_by_nibbles(0x4009002);
    assert(spec_count_ones(0) == 0);
    assert(spec_count_ones(0x7ff9ffe) == 24);
    assert(spec_count_ones(0x4209042) == 6);
    assert(spec_count_ones(0x7fffffe) == 26);
    assert(spec_count_ones(0x4240242) == 6);
    assert(spec_count_ones(0x7e79e7e) == 20);
    assert(spec_count_ones(0x200040) == 2);
    assert(spec_count_ones(0x73f9fce) == 20);
    assert(spec_count_ones(0x1240248) == 6);
    assert(spec_count_ones(0x4009002) == 4);
    assert(pellet_total_upto(INIT_PELLETS@, 31) == 244) by {
        reveal_with_fuel(pellet_total_upto, 32);
    }
}

/// One less than `x`, and zero for zero.
pub open spec fn dec_u8(x: u8) -> u8 {
    if x == 0 {
        0
    } else {
        (x - 1) as u8
    }
}

/// One less than `x`, and zero for zero.
pub open spec fn dec_u16(x: u16) -> u16 {
    if x == 0 {
        0
    } else {
        (x - 1) as u16
    }
}

/// The update period that suits a level: two ticks less for each level
/// after the first, and at least 1.
pub open spec fn level_period(level: u8) -> u8 {
    if INIT_UPDATE_PERIOD - 2 * (level - 1) < 1 {
        1
    } else {
        (INIT_UPDATE_PERIOD - 2 * (level - 1)) as u8
    }
}

/// The update period after a speed-up: two ticks less, and at least 1.
pub open spec fn spec_sped_up(period: u8) -> u8 {
    if period <= 3 {
        1
    } else {
        (period - 2) as u8
    }
}

/// The update period after a speed-up: two ticks less, and at least 1.
#[verifier::when_used_as_spec(spec_sped_up)]
pub fn sped_up(period: u8) -> (p: u8)
    ensures
        p == spec_sped_up(period),
        p >= 1,
{
    let reduced = period.saturating_sub(2);
    if reduced < 1 {
        1
    } else {
        reduced
    }
}

} // verus!
