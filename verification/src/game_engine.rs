use vstd::prelude::*;
use crate::game_state::GameState;
use crate::location::LocationState;
use crate::wire::{decoded, DecodeError};

verus! {

/// A game state together with the pause flag of whoever drives it.
#[derive(Clone, Copy, Debug)]
pub struct GameEngine {
    state: GameState,
    paused: bool,
}

impl GameEngine {
    /// The game state that the engine drives.
    pub closed spec fn spec_state(&self) -> GameState {
        self.state
    }

    /// Whether the engine is paused.
    pub closed spec fn spec_paused(&self) -> bool {
        self.paused
    }

    /// Creates a paused engine on a new game with the given seed.
    pub fn new(seed: u64) -> (e: Self)
        ensures
            e.spec_state() == GameState::spec_new_with_seed(seed),
            e.spec_paused(),
            e.spec_state().wf(),
    {
        Self { state: GameState::new_with_seed(seed), paused: true }
    }

    /// Whether `step` can be called: the tick counter has room for one more
    /// tick, and the tick can go through.
    pub fn can_step(&self) -> (b: bool)
        requires
            self.spec_state().wf(),
        ensures
            b == (self.spec_state().curr_ticks < u32::MAX && self.spec_state().steppable()),
    {
        self.state.can_step()
    }

    /// Runs the game for one tick, as `GameState::step` does, and pauses the
    /// engine if a life was lost.
    pub fn step(&mut self)
        requires
            old(self).spec_state().wf(),
            old(self).spec_state().curr_ticks < u32::MAX,
            old(self).spec_state().steppable(),
        ensures
            final(self).spec_state().wf(),
            final(self).spec_state().curr_ticks == old(self).spec_state().curr_ticks + 1,
            old(self).spec_state().stepped(final(self).spec_state()),
            final(self).spec_paused() == (old(self).spec_paused() || final(self).spec_state().curr_lives
                < old(self).spec_state().curr_lives),
    {
        let lives_before = self.state.curr_lives;
        self.state.step();
        if self.state.curr_lives < lives_before {
            self.pause();
        }
    }

    /// Replaces the state by the one that a snapshot holds, decoded with the
    /// seed of the current state, and takes over its pause flag. A snapshot
    /// that cannot be decoded changes nothing and gives its error.
    pub fn update(&mut self, bytes: &[u8]) -> (r: Result<(), DecodeError>)
        ensures
            match r {
                Ok(_) => decoded(
                    bytes@,
                    old(self).spec_state().seed,
                    Ok::<GameState, DecodeError>(final(self).spec_state()),
                ) && final(self).spec_paused() == final(self).spec_state().paused && final(self).spec_state().wf(),
                Err(e) => decoded(
                    bytes@,
                    old(self).spec_state().seed,
                    Err::<GameState, DecodeError>(e),
                ) && *final(self) == *old(self),
            },
    {
        match GameState::from_bytes(bytes, self.state.seed) {
            Ok(state) => {
                self.paused = state.paused;
                self.state = state;
                Ok(())
            },
            Err(e) => Err(e),
        }
    }

    /// Whether `force_step` can be called: the ghosts can plan once the state
    /// has advanced, and the tick counter has room for one more tick.
    pub open spec fn force_steppable(&self) -> bool {
        self.spec_state().spec_advance().plannable() && self.spec_state().curr_ticks < u32::MAX
    }

    /// Whether `force_step` can be called.
    pub fn can_force_step(&self) -> (b: bool)
        requires
            self.spec_state().wf(),
        ensures
            b == self.force_steppable(),
    {
        let mut ahead = self.state;
        proof {
            ahead.lemma_valid_state_advances();
        }
        ahead.advance();
        ahead.can_plan() && ahead.curr_ticks < u32::MAX
    }

    /// Takes a step whether the current tick is due or not: the state
    /// advances, the ghosts plan, and the tick is counted. The engine is
    /// paused if a life was lost.
    pub fn force_step(&mut self)
        requires
            old(self).spec_state().wf(),
            old(self).force_steppable(),
        ensures
            final(self).spec_state().wf(),
            old(self).spec_state().spec_advance().planned(
                GameState {
                    curr_ticks: old(self).spec_state().curr_ticks,
                    ..final(self).spec_state()
                },
            ),
            final(self).spec_state().curr_ticks == old(self).spec_state().curr_ticks + 1,
            final(self).spec_paused() == (old(self).spec_paused() || final(self).spec_state().curr_lives < old(self).spec_state().curr_lives),
    {
        let lives_before = self.state.curr_lives;
        proof {
            self.state.lemma_valid_state_advances();
        }
        self.state.advance();
        self.state.plan_all_ghosts();
        self.state.next_tick();
        if self.state.curr_lives < lives_before {
            self.pause();
        }
    }

    /// Pauses the engine.
    pub fn pause(&mut self)
        ensures
            final(self).spec_paused(),
            final(self).spec_state() == old(self).spec_state(),
    {
        self.paused = true;
    }

    /// Lets the engine run again.
    pub fn unpause(&mut self)
        ensures
            !final(self).spec_paused(),
            final(self).spec_state() == old(self).spec_state(),
    {
        self.paused = false;
    }

    /// The game state that the engine drives.
    pub fn get_state(&self) -> (s: &GameState)
        ensures
            *s == self.spec_state(),
    {
        &self.state
    }

    /// The game state that the engine drives, to be changed in place.
    pub fn state_mut(&mut self) -> (s: &mut GameState)
        ensures
            *s == old(self).spec_state(),
            final(self).spec_state() == *final(s),
            final(self).spec_paused() == old(self).spec_paused(),
    {
        &mut self.state
    }

    /// Whether the engine is paused.
    pub fn is_paused(&self) -> (b: bool)
        ensures
            b == self.spec_paused(),
    {
        self.paused
    }

    /// What `set_pacman_location` makes of the state: Pacman is at
    /// `location`, and unless the engine is paused it has collected what lies
    /// there and its collisions are resolved.
    pub open spec fn spec_set_pacman_location(&self, location: LocationState) -> GameState {
        let moved = GameState { pacman_loc: location, ..self.spec_state() };
        if self.spec_paused() {
            moved
        } else {
            moved.spec_collect_pellet((location.row, location.col)).spec_check_collisions()
        }
    }

    /// Whether `set_pacman_location` can be called: the engine is paused,
    /// or the collisions can be resolved once Pacman stands at `location`
    /// and has collected what lies there.
    pub open spec fn placeable(&self, location: LocationState) -> bool {
        self.spec_paused() || (GameState {
            pacman_loc: location,
            ..self.spec_state()
        }).spec_collect_pellet((location.row, location.col)).collisions_fit()
    }

    /// Whether `set_pacman_location` can be called.
    pub fn can_set_pacman_location(&self, location: LocationState) -> (b: bool)
        ensures
            b == self.placeable(location),
    {
        if self.paused {
            return true;
        }
        let mut ahead = self.state;
        ahead.pacman_loc = location;
        ahead.collect_pellet((location.row, location.col));
        ahead.can_check_collisions()
    }

    /// Puts Pacman at `location`. Unless the engine is paused, Pacman
    /// collects what lies there and its collisions are resolved.
    pub fn set_pacman_location(&mut self, location: LocationState)
        requires
            old(self).placeable(location),
        ensures
            final(self).spec_state() == old(self).spec_set_pacman_location(location),
            final(self).spec_paused() == old(self).spec_paused(),
            old(self).spec_state().wf() && location.in_range() ==> final(self).spec_state().wf(),
    {
        self.state.pacman_loc = location;
        if !self.paused {
            self.state.collect_pellet((location.row, location.col));
            self.state.check_collisions();
        }
    }
}

} // verus!
