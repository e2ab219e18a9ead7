use vstd::prelude::*;
use crate::game_modes::GameMode;
use crate::game_state::{dec_u16, dec_u8, sped_up, spec_sped_up, GameState};
use crate::variables::{ANGER_THRESHOLD1, LEVEL_PENALTY_DURATION};

verus! {

impl GameState {
    /// The state after the bookkeeping of one step. A mode whose steps have run
    /// out gives way to the other, which starts with its full time, and every
    /// ghost turns around. A level whose steps have run out speeds up and
    /// gets the penalty time. Then the steps of the mode count down while at
    /// least as many pellets are left as the first anger threshold, and those
    /// of the level and of the fruit count down in any case.
    pub open spec fn spec_handle_step_events(self) -> GameState {
        let s = if self.mode_steps == 0 {
            GameState {
                mode: self.mode.flipped(),
                mode_steps: self.mode.flipped().spec_duration(),
                ..self
            }.spec_reverse_all_ghosts()
        } else {
            self
        };
        let s = if s.level_steps == 0 {
            GameState {
                update_period: spec_sped_up(s.update_period),
                level_steps: LEVEL_PENALTY_DURATION,
                ..s
            }
        } else {
            s
        };
        GameState {
            mode_steps: if s.num_pellets >= ANGER_THRESHOLD1 {
                dec_u8(s.mode_steps)
            } else {
                s.mode_steps
            },
            level_steps: dec_u16(s.level_steps),
            fruit_steps: dec_u8(s.fruit_steps),
            ..s
        }
    }

    /// Does the bookkeeping of one step: changes the mode and speeds the level
    /// up where their steps have run out, then counts the steps down.
    pub fn handle_step_events(&mut self)
        ensures
            *final(self) == old(self).spec_handle_step_events(),
            old(self).wf() ==> final(self).wf(),
    {
        if self.mode_steps == 0 {
            match self.mode {
                GameMode::CHASE => {
                    self.mode = GameMode::SCATTER;
                    self.set_mode_steps(GameMode::SCATTER.duration());
                },
                GameMode::SCATTER => {
                    self.mode = GameMode::CHASE;
                    self.set_mode_steps(GameMode::CHASE.duration());
                },
            }
            self.reverse_all_ghosts();
        }
        if self.level_steps == 0 {
            self.set_update_period(sped_up(self.get_update_period()));
            self.set_level_steps(LEVEL_PENALTY_DURATION);
        }
        if self.get_num_pellets() >= ANGER_THRESHOLD1 {
            self.decrement_mode_steps();
        }
        self.decrement_level_steps();
        self.decrement_fruit_steps();
    }

    /// The state after the first half of a step that is due: the ghosts move
    /// to where they planned to be, Pacman respawns if it has to, collisions
    /// are resolved, and the bookkeeping of the step is done.
    pub open spec fn spec_advance(self) -> GameState {
        self.spec_update_all_ghosts().spec_try_respawn_pacman().spec_check_collisions().spec_handle_step_events()
    }

    /// Takes the first half of a step: the ghosts move to where they planned
    /// to be, Pacman respawns if it has to, collisions are resolved, and the
    /// bookkeeping of the step is done.
    pub fn advance(&mut self)
        requires
            old(self).spec_update_all_ghosts().spec_try_respawn_pacman().collisions_fit(),
        ensures
            *final(self) == old(self).spec_advance(),
            old(self).wf() ==> final(self).wf(),
    {
        self.update_all_ghosts();
        self.try_respawn_pacman();
        self.check_collisions();
        self.handle_step_events();
    }

    /// A valid state can advance.
    pub proof fn lemma_valid_state_advances(self)
        requires
            self.wf(),
        ensures
            self.spec_update_all_ghosts().spec_try_respawn_pacman().collisions_fit(),
    {
        let placed = self.spec_update_all_ghosts().spec_try_respawn_pacman();
        assert(placed.ghost_combo == self.ghost_combo);
        placed.lemma_contacts_are_edible();
    }

    /// The state of a tick just before the ghosts plan: one tick later, and,
    /// where that tick is due, advanced.
    pub open spec fn before_plan(self) -> GameState {
        let ticked = self.spec_next_tick();
        if ticked.spec_update_ready() {
            ticked.spec_advance()
        } else {
            ticked
        }
    }

    /// Whether a tick can go through: if the ghosts plan in it, each of them
    /// that chooses a direction has a valid one.
    pub open spec fn steppable(self) -> bool {
        self.before_plan().spec_update_ready() ==> self.before_plan().plannable()
    }

    /// Whether `after` is a state that one tick can lead to from this one. The
    /// tick is counted, and if it is due the state advances. If the tick is due
    /// then, by the update period as it is by now, the ghosts plan. A game in
    /// which a life was lost is paused.
    pub open spec fn stepped(self, after: GameState) -> bool {
        let before = self.before_plan();
        let unpaused = GameState { paused: before.paused, ..after };
        &&& if before.spec_update_ready() {
            before.planned(unpaused)
        } else {
            unpaused == before
        }
        &&& after.paused == (before.paused || before.curr_lives < self.curr_lives)
    }

    /// Whether `step` can be called: the tick counter has room for one more
    /// tick, and the tick can go through.
    pub fn can_step(&self) -> (b: bool)
        requires
            self.wf(),
        ensures
            b == (self.curr_ticks < u32::MAX && self.steppable()),
    {
        if self.curr_ticks == u32::MAX {
            return false;
        }
        let mut ahead = *self;
        ahead.next_tick();
        if ahead.update_ready() {
            proof {
                ahead.lemma_valid_state_advances();
            }
            ahead.advance();
        }
        !ahead.update_ready() || ahead.can_plan()
    }

    /// Runs the game for one tick.
    pub fn step(&mut self)
        requires
            old(self).wf(),
            old(self).curr_ticks < u32::MAX,
            old(self).steppable(),
        ensures
            old(self).stepped(*final(self)),
            final(self).wf(),
    {
        let lives_before = self.curr_lives;
        self.next_tick();
        if self.update_ready() {
            proof {
                self.lemma_valid_state_advances();
            }
            self.advance();
        }
        if self.update_ready() {
            self.plan_all_ghosts();
        }
        if self.curr_lives < lives_before {
            self.paused = true;
        }
    }
}

} // verus!
