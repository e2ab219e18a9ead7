use vstd::prelude::*;
use crate::ghost_state::{GhostColor, GhostState};
use crate::location::{spec_empty_loc, empty_loc, Direction, LocationState};
use crate::variables::{
    ghost_spawn_loc, ghost_trapped_steps, spec_ghost_spawn_loc, spec_ghost_trapped_steps,
};

verus! {

impl GhostState {
    /// The ghost after a reset of the board: unplaced, about to appear on its
    /// spawn cell, spawning, trapped for as long as its color says.
    pub open spec fn spec_reset(self) -> GhostState {
        GhostState {
            loc: spec_empty_loc(),
            next_loc: spec_ghost_spawn_loc(self.color),
            trapped_steps: spec_ghost_trapped_steps(self.color),
            fright_steps: 0,
            spawning: true,
            eaten: false,
            ..self
        }
    }

    /// Sends the ghost back to where it starts a life.
    pub fn reset(&mut self)
        ensures
            *final(self) == old(self).spec_reset(),
            old(self).wf() ==> final(self).wf(),
    {
        self.set_spawning(true);
        self.set_eaten(false);
        self.set_trapped_steps(ghost_trapped_steps(self.color));
        self.set_fright_steps(0);
        self.loc = empty_loc();
        self.next_loc = ghost_spawn_loc(self.color);
    }

    /// The color on whose spawn cell an eaten ghost reappears: its own, but
    /// Pink's for Red, whose own cell lies outside the ghost house.
    pub open spec fn respawn_color(self) -> GhostColor {
        if self.color == GhostColor::Red {
            GhostColor::Pink
        } else {
            self.color
        }
    }

    /// The ghost after it was eaten: unplaced, about to appear in the ghost
    /// house facing up, spawning and marked as eaten.
    pub open spec fn spec_respawn(self) -> GhostState {
        GhostState {
            loc: spec_empty_loc(),
            next_loc: LocationState {
                dir: Direction::Up,
                ..spec_ghost_spawn_loc(self.respawn_color())
            },
            spawning: true,
            eaten: true,
            ..self
        }
    }

    /// Sends an eaten ghost back to the ghost house.
    pub fn respawn(&mut self)
        ensures
            *final(self) == old(self).spec_respawn(),
            old(self).wf() ==> final(self).wf(),
    {
        self.set_spawning(true);
        self.set_eaten(true);
        self.loc = empty_loc();
        let spawn_loc_color = if self.color == GhostColor::Red {
            GhostColor::Pink
        } else {
            self.color
        };
        self.next_loc = ghost_spawn_loc(spawn_loc_color);
        self.next_loc.dir = Direction::Up;
    }

    /// The ghost after an update: it stops spawning once it stands on Red's
    /// spawn cell and does not face down, an eaten ghost stops being eaten and
    /// frightened, a frightened one loses a step, and the planned location
    /// becomes the current one.
    pub open spec fn spec_update(self) -> GhostState {
        let fright = if self.eaten {
            0u8
        } else {
            self.fright_steps
        };
        GhostState {
            loc: self.next_loc,
            spawning: self.spawning && !(self.loc.spec_collides_with(
                spec_ghost_spawn_loc(GhostColor::Red),
            ) && self.loc.dir != Direction::Down),
            eaten: false,
            fright_steps: if fright > 0 {
                (fright - 1) as u8
            } else {
                0u8
            },
            ..self
        }
    }

    /// Moves the ghost to its planned location and counts its states down.
    pub fn update(&mut self)
        ensures
            *final(self) == old(self).spec_update(),
            old(self).wf() ==> final(self).wf(),
    {
        if self.loc.collides_with(ghost_spawn_loc(GhostColor::Red)) && self.loc.dir
            != Direction::Down {
            self.set_spawning(false);
        }
        if self.is_eaten() {
            self.set_eaten(false);
            self.set_fright_steps(0);
        }
        if self.is_frightened() {
            self.dec_fright_steps();
        }
        self.loc = self.next_loc;
    }
}

} // verus!
