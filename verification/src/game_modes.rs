use vstd::prelude::*;
use crate::game_state::{dec_u8, GameState};

verus! {

/// The two phases that a game alternates between.
#[derive(Clone, Copy, Debug, PartialEq, Eq, Hash, Structural)]
pub enum GameMode {
    SCATTER,
    CHASE,
}

impl GameMode {
    /// The length of the mode in steps.
    pub open spec fn spec_duration(self) -> u8 {
        match self {
            GameMode::SCATTER => 60,
            GameMode::CHASE => 180,
        }
    }

    /// The length of the mode in steps.
    #[verifier::when_used_as_spec(spec_duration)]
    pub fn duration(self) -> (d: u8)
        ensures
            d == self.spec_duration(),
    {
        match self {
            GameMode::SCATTER => 60,
            GameMode::CHASE => 180,
        }
    }

    /// The other mode.
    pub open spec fn flipped(self) -> GameMode {
        match self {
            GameMode::SCATTER => GameMode::CHASE,
            GameMode::CHASE => GameMode::SCATTER,
        }
    }
}

impl GameState {
    /// The number of steps until the mode changes.
    pub fn get_mode_steps(&self) -> (steps: u8)
        ensures
            steps == self.mode_steps,
    {
        self.mode_steps
    }

    /// Sets the number of steps until the mode changes.
    pub fn set_mode_steps(&mut self, steps: u8)
        ensures
            *final(self) == (GameState { mode_steps: steps, ..*old(self) }),
    {
        self.mode_steps = steps;
    }

    /// Counts the steps until the mode changes down by one, stopping at zero.
    pub fn decrement_mode_steps(&mut self)
        ensures
            *final(self) == (GameState {
                mode_steps: dec_u8(old(self).mode_steps),
                ..*old(self)
            }),
    {
        if self.mode_steps != 0 {
            self.mode_steps -= 1;
        }
    }
}

} // verus!
