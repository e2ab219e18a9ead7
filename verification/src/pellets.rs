use vstd::prelude::*;
use crate::game_modes::GameMode;
use crate::game_state::{dec_u16, sped_up, spec_sped_up, GameState};
use crate::location::{is_super_pellet, spec_is_super_pellet, Position};
use crate::maze::{modify_bit_u32, spec_modify_bit_u32};
use crate::wire::{
    lemma_count_ones_clear, lemma_pellet_total_bound, lemma_pellet_total_update,
};
use crate::variables::{
    ANGER_THRESHOLD1, ANGER_THRESHOLD2, FRUIT_DURATION, FRUIT_POINTS, FRUIT_THRESHOLD1,
    FRUIT_THRESHOLD2, PELLET_POINTS, SUPER_PELLET_POINTS,
};

verus! {

impl GameState {
    /// The state after a fruit that Pacman stands on was collected; the same
    /// state where there is no fruit or Pacman is elsewhere.
    pub open spec fn spec_collect_fruit(self) -> GameState {
        if self.fruit_steps > 0 && self.pacman_loc.spec_collides_with(self.fruit_loc) {
            GameState { fruit_steps: 0, ..self }.spec_increment_score(FRUIT_POINTS)
        } else {
            self
        }
    }

    /// The state after the ghosts got angry: a faster game, in chase mode for
    /// the full time.
    pub open spec fn spec_anger(self) -> GameState {
        GameState {
            update_period: spec_sped_up(self.update_period),
            mode: GameMode::CHASE,
            mode_steps: GameMode::CHASE.spec_duration(),
            ..self
        }
    }

    /// The state after the pellet at `pos`, which is there, was taken off the
    /// board and paid for, before what follows from the number of pellets left.
    pub open spec fn spec_take_pellet(self, pos: Position) -> GameState {
        let taken = GameState {
            pellets: vstd::array::spec_array_update(
                self.pellets,
                pos.0 as int,
                spec_modify_bit_u32(self.pellets[pos.0 as int], pos.1 as usize, false),
            ),
            num_pellets: dec_u16(self.num_pellets),
            ..self
        };
        if spec_is_super_pellet(pos) {
            taken.spec_frighten_all_ghosts().spec_increment_score(SUPER_PELLET_POINTS)
        } else {
            taken.spec_increment_score(PELLET_POINTS)
        }
    }

    /// What follows from the number of pellets left after one was taken: a
    /// fruit appears at either fruit threshold unless one is there, the ghosts
    /// get angry at either anger threshold, and at zero the level ends.
    pub open spec fn spec_pellet_events(self) -> GameState {
        let n = self.num_pellets;
        let s = if self.fruit_steps == 0 && (n == FRUIT_THRESHOLD1 || n == FRUIT_THRESHOLD2) {
            GameState { fruit_steps: FRUIT_DURATION, ..self }
        } else {
            self
        };
        if n == ANGER_THRESHOLD1 || n == ANGER_THRESHOLD2 {
            s.spec_anger()
        } else if n == 0 {
            s.spec_level_reset().spec_increment_level()
        } else {
            s
        }
    }

    /// The state after Pacman tried to collect at `pos`: a fruit under Pacman
    /// is collected first; then, if a pellet lies at `pos`, it is taken and
    /// what follows from the number of pellets left happens.
    pub open spec fn spec_collect_pellet(self, pos: Position) -> GameState {
        let s = self.spec_collect_fruit();
        if !s.spec_pellet_at(pos) {
            s
        } else {
            s.spec_take_pellet(pos).spec_pellet_events()
        }
    }

    /// Takes the pellet at `pos`, which is there, off the board and pays
    /// for it; a super pellet frightens the ghosts.
    fn take_pellet(&mut self, pos: Position)
        requires
            old(self).spec_pellet_at(pos),
        ensures
            *final(self) == old(self).spec_take_pellet(pos),
            old(self).wf() ==> final(self).wf(),
            old(self).combo_has_room() ==> final(self).combo_has_room(),
            old(self).pellets_counted() ==> final(self).pellets_counted(),
            final(self).pacman_loc == old(self).pacman_loc || final(self).pacman_loc
                == crate::location::spec_empty_loc(),
    {
        let (row, col) = pos;
        let ghost before = *self;
        modify_bit_u32(&mut self.pellets[row as usize], col as usize, false);
        proof {
            let word = before.pellets[row as int];
            lemma_count_ones_clear(word, col as u32);
            lemma_pellet_total_update(before.pellets@, row as int, self.pellets[row as int], 31);
            assert(self.pellets@ =~= before.pellets@.update(row as int, self.pellets[row as int]));
            lemma_pellet_total_bound(self.pellets@, 31);
        }
        self.decrement_num_pellets();
        assert(before.pellets_counted() ==> self.pellets_counted());
        let super_pellet = is_super_pellet((row, col));
        if super_pellet {
            self.frighten_all_ghosts();
        }
        if super_pellet {
            self.increment_score(SUPER_PELLET_POINTS);
        } else {
            self.increment_score(PELLET_POINTS);
        }
        assert(self.pellets =~= before.spec_take_pellet(pos).pellets);
    }

    /// Does what follows from the number of pellets left after one was taken.
    fn pellet_events(&mut self)
        ensures
            *final(self) == old(self).spec_pellet_events(),
            old(self).wf() ==> final(self).wf(),
            old(self).combo_has_room() ==> final(self).combo_has_room(),
            old(self).pellets_counted() ==> final(self).pellets_counted(),
            final(self).pacman_loc == old(self).pacman_loc || final(self).pacman_loc
                == crate::location::spec_empty_loc(),
    {
        let num_pellets = self.get_num_pellets();
        if !self.fruit_exists() && (num_pellets == FRUIT_THRESHOLD1 || num_pellets
            == FRUIT_THRESHOLD2) {
            self.set_fruit_steps(FRUIT_DURATION);
        }
        if num_pellets == ANGER_THRESHOLD1 || num_pellets == ANGER_THRESHOLD2 {
            self.set_update_period(sped_up(self.get_update_period()));
            self.mode = GameMode::CHASE;
            self.set_mode_steps(GameMode::CHASE.duration());
        } else if num_pellets == 0 {
            self.level_reset();
            self.increment_level();
        }
    }

    /// Collects the fruit under Pacman, if there is one, and the pellet at
    /// `pos`, if there is one.
    pub fn collect_pellet(&mut self, pos: Position)
        ensures
            *final(self) == old(self).spec_collect_pellet(pos),
            old(self).wf() ==> final(self).wf(),
            old(self).combo_has_room() ==> final(self).combo_has_room(),
            old(self).pellets_counted() ==> final(self).pellets_counted(),
            final(self).pacman_loc == old(self).pacman_loc || final(self).pacman_loc
                == crate::location::spec_empty_loc(),
    {
        if self.fruit_exists() && self.pacman_loc.collides_with(self.fruit_loc) {
            self.set_fruit_steps(0);
            self.increment_score(FRUIT_POINTS);
        }
        if !self.pellet_at(pos) {
            return ;
        }
        self.take_pellet(pos);
        self.pellet_events();
    }
}

} // verus!
