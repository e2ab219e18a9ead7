use vstd::prelude::*;
use crate::game_state::GameState;
use crate::ghost_state::{GhostColor, GhostState};
use crate::location::{empty_loc, spec_empty_loc, Direction, LocationState};
use crate::variables::{
    pacman_spawn_loc, spec_pacman_spawn_loc, ANGER_THRESHOLD1, GHOST_FRIGHT_STEPS, INIT_MODE,
    LEVEL_DURATION,
};

verus! {

/// A ghost that does not already only turn around is made to do so for one step.
pub open spec fn turned(g: GhostState) -> GhostState {
    GhostState {
        trapped_steps: if g.trapped_steps > 0 {
            g.trapped_steps
        } else {
            1
        },
        ..g
    }
}

/// A ghost made frightened for the full time, and to turn around.
pub open spec fn frightened(g: GhostState) -> GhostState {
    turned(GhostState { fright_steps: GHOST_FRIGHT_STEPS, ..g })
}

/// A ghost after a reset of the board. When no life is left it looks at the
/// player instead of moving: Orange to the left, the others nowhere.
pub open spec fn reset_ghost(g: GhostState, lives: u8) -> GhostState {
    let r = g.spec_reset();
    if lives == 0 {
        GhostState {
            next_loc: LocationState {
                dir: if g.color != GhostColor::Orange {
                    Direction::Stay
                } else {
                    Direction::Left
                },
                ..r.next_loc
            },
            ..r
        }
    } else {
        r
    }
}

impl GameState {
    /// Whether the current tick is one on which the simulation takes a step.
    pub open spec fn spec_update_ready(&self) -> bool {
        self.curr_ticks as int % self.update_period as int == 0
    }

    /// Whether the update period divides the current tick.
    #[verifier::when_used_as_spec(spec_update_ready)]
    pub fn update_ready(&self) -> (b: bool)
        requires
            self.update_period > 0,
        ensures
            b == self.spec_update_ready(),
    {
        let update_period: u32 = self.get_update_period() as u32;
        self.curr_ticks % update_period == 0
    }

    /// The state with the same change made to each of the four ghosts.
    pub open spec fn map_ghosts(self, f: spec_fn(GhostState) -> GhostState) -> GameState {
        GameState {
            ghosts: [f(self.ghosts[0]), f(self.ghosts[1]), f(self.ghosts[2]), f(self.ghosts[3])],
            ..self
        }
    }

    /// The state with every ghost frightened and the combo back at zero.
    pub open spec fn spec_frighten_all_ghosts(self) -> GameState {
        GameState { ghost_combo: 0, ..self }.map_ghosts(|g: GhostState| frightened(g))
    }

    /// Frightens every ghost for the full time, makes each turn around, and
    /// starts the combo again.
    pub fn frighten_all_ghosts(&mut self)
        ensures
            *final(self) == old(self).spec_frighten_all_ghosts(),
            old(self).wf() ==> final(self).wf(),
    {
        self.ghost_combo = 0;
        let ghost prev = *self;
        let mut i: usize = 0;
        while i < 4
            invariant
                i <= 4,
                forall|j: int| 0 <= j < i ==> self.ghosts[j] == frightened(prev.ghosts[j]),
                forall|j: int| i <= j < 4 ==> self.ghosts[j] == prev.ghosts[j],
                *self == (GameState { ghosts: self.ghosts, ..prev }),
            decreases 4 - i,
        {
            self.ghosts[i].set_fright_steps(GHOST_FRIGHT_STEPS);
            if !self.ghosts[i].is_trapped() {
                self.ghosts[i].set_trapped_steps(1);
            }
            i += 1;
        }
        assert(self.ghosts =~= old(self).spec_frighten_all_ghosts().ghosts);
    }

    /// The state with every ghost made to turn around.
    pub open spec fn spec_reverse_all_ghosts(self) -> GameState {
        self.map_ghosts(|g: GhostState| turned(g))
    }

    /// Makes every ghost turn around at its next step.
    pub fn reverse_all_ghosts(&mut self)
        ensures
            *final(self) == old(self).spec_reverse_all_ghosts(),
            old(self).wf() ==> final(self).wf(),
    {
        let ghost prev = *self;
        let mut i: usize = 0;
        while i < 4
            invariant
                i <= 4,
                forall|j: int| 0 <= j < i ==> self.ghosts[j] == turned(prev.ghosts[j]),
                forall|j: int| i <= j < 4 ==> self.ghosts[j] == prev.ghosts[j],
                *self == (GameState { ghosts: self.ghosts, ..prev }),
            decreases 4 - i,
        {
            if !self.ghosts[i].is_trapped() {
                self.ghosts[i].set_trapped_steps(1);
            }
            i += 1;
        }
        assert(self.ghosts =~= old(self).spec_reverse_all_ghosts().ghosts);
    }

    /// The state with every ghost reset and the combo back at zero.
    pub open spec fn spec_reset_all_ghosts(self) -> GameState {
        GameState { ghost_combo: 0, ..self }.map_ghosts(
            |g: GhostState| reset_ghost(g, self.curr_lives),
        )
    }

    /// Sends every ghost back to where it starts a life.
    pub fn reset_all_ghosts(&mut self)
        ensures
            *final(self) == old(self).spec_reset_all_ghosts(),
            old(self).wf() ==> final(self).wf(),
    {
        self.ghost_combo = 0;
        let ghost prev = *self;
        let mut i: usize = 0;
        while i < 4
            invariant
                i <= 4,
                forall|j: int| 0 <= j < i ==> self.ghosts[j] == prev.ghosts[j].spec_reset(),
                forall|j: int| i <= j < 4 ==> self.ghosts[j] == prev.ghosts[j],
                *self == (GameState { ghosts: self.ghosts, ..prev }),
            decreases 4 - i,
        {
            self.ghosts[i].reset();
            i += 1;
        }
        if self.get_lives() == 0 {
            let mut i: usize = 0;
            while i < 4
                invariant
                    i <= 4,
                    prev.curr_lives == 0,
                    forall|j: int|
                        0 <= j < i ==> self.ghosts[j] == reset_ghost(
                            prev.ghosts[j],
                            prev.curr_lives,
                        ),
                    forall|j: int| i <= j < 4 ==> self.ghosts[j] == prev.ghosts[j].spec_reset(),
                    *self == (GameState { ghosts: self.ghosts, ..prev }),
                decreases 4 - i,
            {
                if self.ghosts[i].color != GhostColor::Orange {
                    self.ghosts[i].next_loc.dir = Direction::Stay;
                } else {
                    self.ghosts[i].next_loc.dir = Direction::Left;
                }
                i += 1;
            }
        }
        assert(self.ghosts =~= old(self).spec_reset_all_ghosts().ghosts);
    }

    /// The state with every ghost updated.
    pub open spec fn spec_update_all_ghosts(self) -> GameState {
        self.map_ghosts(|g: GhostState| g.spec_update())
    }

    /// Moves every ghost to its planned location.
    pub fn update_all_ghosts(&mut self)
        ensures
            *final(self) == old(self).spec_update_all_ghosts(),
            old(self).wf() ==> final(self).wf(),
    {
        let ghost prev = *self;
        let mut i: usize = 0;
        while i < 4
            invariant
                i <= 4,
                forall|j: int| 0 <= j < i ==> self.ghosts[j] == prev.ghosts[j].spec_update(),
                forall|j: int| i <= j < 4 ==> self.ghosts[j] == prev.ghosts[j],
                *self == (GameState { ghosts: self.ghosts, ..prev }),
            decreases 4 - i,
        {
            self.ghosts[i].update();
            i += 1;
        }
        assert(self.ghosts =~= old(self).spec_update_all_ghosts().ghosts);
    }

    /// The state after Pacman died: Pacman unplaced, a life less, the initial
    /// mode again if more pellets are left than the first anger threshold, no
    /// fruit, every ghost reset. The pellets stay as they are.
    pub open spec fn spec_death_reset(self) -> GameState {
        let s = GameState { pacman_loc: spec_empty_loc(), ..self }.spec_decrement_lives();
        let s = if s.num_pellets > ANGER_THRESHOLD1 {
            GameState { mode: INIT_MODE, mode_steps: INIT_MODE.spec_duration(), ..s }
        } else {
            s
        };
        GameState { fruit_steps: 0, ..s }.spec_reset_all_ghosts()
    }

    /// Resets the board after Pacman died, leaving the pellets alone.
    pub fn death_reset(&mut self)
        ensures
            *final(self) == old(self).spec_death_reset(),
            old(self).wf() ==> final(self).wf(),
    {
        self.pacman_loc = empty_loc();
        self.decrement_lives();
        if self.get_num_pellets() > ANGER_THRESHOLD1 {
            self.mode = INIT_MODE;
            self.set_mode_steps(INIT_MODE.duration());
        }
        self.set_fruit_steps(0);
        self.reset_all_ghosts();
    }

    /// The state after a level was cleared: Pacman unplaced, the initial mode,
    /// the full time until the level speeds up, no fruit, every ghost reset,
    /// every pellet back in place.
    pub open spec fn spec_level_reset(self) -> GameState {
        GameState {
            pacman_loc: spec_empty_loc(),
            mode: INIT_MODE,
            mode_steps: INIT_MODE.spec_duration(),
            level_steps: LEVEL_DURATION,
            fruit_steps: 0,
            ..self
        }.spec_reset_all_ghosts().spec_reset_pellets()
    }

    /// Resets the board, pellets included, after a level was cleared.
    pub fn level_reset(&mut self)
        ensures
            *final(self) == old(self).spec_level_reset(),
            old(self).wf() ==> final(self).wf(),
            final(self).pellets_counted(),
    {
        self.pacman_loc = empty_loc();
        self.mode = INIT_MODE;
        self.set_mode_steps(INIT_MODE.duration());
        self.set_level_steps(LEVEL_DURATION);
        self.set_fruit_steps(0);
        self.reset_all_ghosts();
        self.reset_pellets();
    }

    /// The state with Pacman back on its spawn cell, if it was unplaced and a
    /// life is left.
    pub open spec fn spec_try_respawn_pacman(self) -> GameState {
        if self.pacman_loc.spec_is_empty() && self.curr_lives > 0 {
            GameState { pacman_loc: spec_pacman_spawn_loc(), ..self }
        } else {
            self
        }
    }

    /// Puts an unplaced Pacman back on its spawn cell while a life is left.
    pub fn try_respawn_pacman(&mut self)
        ensures
            *final(self) == old(self).spec_try_respawn_pacman(),
            old(self).wf() ==> final(self).wf(),
    {
        if self.pacman_loc.is_empty() && self.get_lives() > 0 {
            self.pacman_loc = pacman_spawn_loc();
        }
    }

    /// The state after Pacman tried to move one cell in direction `dir`:
    /// collisions are resolved first, Pacman then faces `dir`, and if no wall
    /// is in the way it moves and collects what lies on the new cell.
    pub open spec fn spec_move_pacman_dir(self, dir: Direction) -> GameState {
        let s = self.spec_check_collisions();
        let next = s.pacman_loc.spec_get_neighbor_coords(dir);
        let turned = GameState { pacman_loc: LocationState { dir, ..s.pacman_loc }, ..s };
        if turned.spec_wall_at(next) {
            turned
        } else {
            GameState {
                pacman_loc: LocationState { row: next.0, col: next.1, dir },
                ..s
            }.spec_collect_pellet(next)
        }
    }

    /// Puts Pacman at `loc`.
    fn place_pacman(&mut self, loc: LocationState)
        ensures
            *final(self) == (GameState { pacman_loc: loc, ..*old(self) }),
            old(self).wf() && loc.in_range() ==> final(self).wf(),
            old(self).combo_has_room() ==> final(self).combo_has_room(),
    {
        self.pacman_loc = loc;
        assert(self.edible_count() == old(self).edible_count());
    }

    /// Moves Pacman one cell in direction `dir`, unless a wall is in the way.
    pub fn move_pacman_dir(&mut self, dir: Direction)
        requires
            old(self).collisions_fit(),
            old(self).pacman_loc.offset_fits(dir, 1),
        ensures
            *final(self) == old(self).spec_move_pacman_dir(dir),
            old(self).wf() ==> final(self).wf(),
            old(self).combo_has_room() ==> final(self).combo_has_room(),
            old(self).pacman_loc.has_neighbors() ==> final(self).pacman_loc.has_neighbors(),
    {
        self.check_collisions();
        let next_loc = self.pacman_loc.get_neighbor_coords(dir);
        let mut turned = self.pacman_loc;
        turned.dir = dir;
        if self.wall_at(next_loc) {
            self.place_pacman(turned);
            return ;
        }
        turned.update_coords(next_loc);
        self.place_pacman(turned);
        self.collect_pellet(next_loc);
    }
}

} // verus!
