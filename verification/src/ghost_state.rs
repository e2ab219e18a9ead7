use vstd::prelude::*;
use crate::location::{spec_empty_loc, empty_loc, LocationState};
use crate::variables::{
    ghost_scatter_target, ghost_spawn_loc, ghost_trapped_steps, spec_ghost_scatter_target,
    spec_ghost_spawn_loc, spec_ghost_trapped_steps,
};

verus! {

/// The colors of the four ghosts, in the order in which they are stored.
#[derive(Copy, Clone, Debug, PartialOrd, PartialEq, Eq, Structural)]
pub enum GhostColor {
    Red,
    Pink,
    Cyan,
    Orange,
}

impl GhostColor {
    /// The color with the given index, in the order Red, Pink, Cyan, Orange.
    pub open spec fn spec_from_u8(value: u8) -> Option<GhostColor> {
        if value == 0 {
            Some(GhostColor::Red)
        } else if value == 1 {
            Some(GhostColor::Pink)
        } else if value == 2 {
            Some(GhostColor::Cyan)
        } else if value == 3 {
            Some(GhostColor::Orange)
        } else {
            None
        }
    }

    /// The color with the given index, if there is one.
    pub fn from_u8(value: u8) -> (r: Option<GhostColor>)
        ensures
            r == Self::spec_from_u8(value),
    {
        match value {
            0 => Some(GhostColor::Red),
            1 => Some(GhostColor::Pink),
            2 => Some(GhostColor::Cyan),
            3 => Some(GhostColor::Orange),
            _ => None,
        }
    }

    /// The place of a color among the four: Red is 0, Orange is 3.
    pub open spec fn spec_index(self) -> usize {
        match self {
            GhostColor::Red => 0,
            GhostColor::Pink => 1,
            GhostColor::Cyan => 2,
            GhostColor::Orange => 3,
        }
    }

    /// The place of a color among the four: Red is 0, Orange is 3.
    #[verifier::when_used_as_spec(spec_index)]
    pub fn index(self) -> (i: usize)
        ensures
            i == self.spec_index(),
    {
        match self {
            GhostColor::Red => 0,
            GhostColor::Pink => 1,
            GhostColor::Cyan => 2,
            GhostColor::Orange => 3,
        }
    }

    /// The color at place `i` among the four; Orange for any place past the third.
    pub open spec fn spec_at(i: usize) -> GhostColor {
        if i == 0 {
            GhostColor::Red
        } else if i == 1 {
            GhostColor::Pink
        } else if i == 2 {
            GhostColor::Cyan
        } else {
            GhostColor::Orange
        }
    }

    /// The color at place `i` among the four.
    #[verifier::when_used_as_spec(spec_at)]
    pub fn at(i: usize) -> (c: GhostColor)
        ensures
            c == Self::spec_at(i),
            i < 4 ==> c.spec_index() == i,
    {
        if i == 0 {
            GhostColor::Red
        } else if i == 1 {
            GhostColor::Pink
        } else if i == 2 {
            GhostColor::Cyan
        } else {
            GhostColor::Orange
        }
    }
}

impl TryFrom<u8> for GhostColor {
    type Error = ();

    /// The color with the given index, or an error if there is none.
    fn try_from(value: u8) -> (r: Result<Self, Self::Error>) {
        match GhostColor::from_u8(value) {
            Some(color) => Ok(color),
            None => Err(()),
        }
    }
}

impl vstd::std_specs::convert::TryFromSpecImpl<u8> for GhostColor {
    open spec fn obeys_try_from_spec() -> bool {
        true
    }

    open spec fn try_from_spec(value: u8) -> Result<Self, Self::Error> {
        match GhostColor::spec_from_u8(value) {
            Some(color) => Ok(color),
            None => Err(()),
        }
    }
}

/// The colors of the ghosts, in the order in which a game state holds them.
pub const GHOST_NAMES: [GhostColor; 4] = [
    GhostColor::Red,
    GhostColor::Pink,
    GhostColor::Cyan,
    GhostColor::Orange,
];

/// The location and attributes of one ghost.
#[derive(Copy, Clone, Debug, PartialOrd, PartialEq, Eq, Structural)]
pub struct GhostState {
    /// Where the ghost is.
    pub loc: LocationState,
    /// Where the ghost will be after the next update.
    pub next_loc: LocationState,
    /// The corner that the ghost heads for in scatter mode.
    pub scatter_target: LocationState,
    pub color: GhostColor,
    /// Steps for which the ghost still only turns around.
    pub trapped_steps: u8,
    /// Steps for which the ghost is still frightened.
    pub fright_steps: u8,
    /// Set while the ghost is on its way out of the ghost house.
    pub spawning: bool,
    /// Set from the moment the ghost is eaten until its next update.
    pub eaten: bool,
}

impl GhostState {
    /// The scatter target is that of the color, both locations and the cells
    /// ahead of them are in range, the frightened steps fit six bits, and a
    /// ghost that is eaten is spawning.
    pub open spec fn wf(&self) -> bool {
        &&& self.scatter_target == spec_ghost_scatter_target(self.color)
        &&& self.loc.heading_in_range()
        &&& self.next_loc.heading_in_range()
        &&& self.fright_steps < 64
        &&& self.eaten ==> self.spawning
    }

    /// A ghost of the given color as it is when a game starts.
    pub open spec fn spec_new(color: GhostColor) -> GhostState {
        GhostState {
            loc: spec_empty_loc(),
            next_loc: spec_ghost_spawn_loc(color),
            scatter_target: spec_ghost_scatter_target(color),
            color,
            trapped_steps: spec_ghost_trapped_steps(color),
            fright_steps: 0,
            spawning: true,
            eaten: false,
        }
    }

    /// Creates a ghost of the given color, not yet placed, about to spawn.
    #[verifier::when_used_as_spec(spec_new)]
    pub fn new(color: GhostColor) -> (g: Self)
        ensures
            g == Self::spec_new(color),
            g.wf(),
    {
        Self {
            loc: empty_loc(),
            next_loc: ghost_spawn_loc(color),
            scatter_target: ghost_scatter_target(color),
            color,
            trapped_steps: ghost_trapped_steps(color),
            fright_steps: 0,
            spawning: true,
            eaten: false,
        }
    }

    /// Takes the frightened steps from the low six bits of `aux_info` and the
    /// spawning flag from its top bit.
    pub fn update_aux(&mut self, aux_info: u8)
        ensures
            *final(self) == (GhostState {
                fright_steps: aux_info % 64,
                spawning: aux_info >= 128,
                ..*old(self)
            }),
    {
        self.fright_steps = aux_info % 64;
        self.spawning = aux_info / 128 != 0;
    }

    /// Takes the trapped steps from the low six bits of `aux2` and the eaten
    /// flag from its top bit.
    pub fn update_aux2(&mut self, aux2: u8)
        ensures
            *final(self) == (GhostState {
                trapped_steps: aux2 % 64,
                eaten: aux2 >= 128,
                ..*old(self)
            }),
    {
        self.trapped_steps = aux2 % 64;
        self.eaten = aux2 / 128 != 0;
    }

    /// The byte that carries the frightened steps and the spawning flag.
    pub open spec fn spec_get_aux(&self) -> u8 {
        (self.fright_steps % 64 + if self.spawning { 128int } else { 0 }) as u8
    }

    /// The frightened steps in the low six bits, the spawning flag in the top bit.
    #[verifier::when_used_as_spec(spec_get_aux)]
    pub fn get_aux(&self) -> (aux: u8)
        ensures
            aux == self.spec_get_aux(),
    {
        let mut aux_info: u8 = self.fright_steps % 64;
        if self.spawning {
            aux_info = aux_info + 128;
        }
        aux_info
    }

    /// The byte that carries the trapped steps and the eaten flag.
    pub open spec fn spec_get_aux2(&self) -> u8 {
        (self.trapped_steps % 64 + if self.eaten { 128int } else { 0 }) as u8
    }

    /// The trapped steps in the low six bits, the eaten flag in the top bit.
    #[verifier::when_used_as_spec(spec_get_aux2)]
    pub fn get_aux2(&self) -> (aux: u8)
        ensures
            aux == self.spec_get_aux2(),
    {
        let mut aux_info: u8 = self.trapped_steps % 64;
        if self.eaten {
            aux_info = aux_info + 128;
        }
        aux_info
    }

    /// Sets the number of steps for which the ghost is frightened.
    pub fn set_fright_steps(&mut self, steps: u8)
        ensures
            *final(self) == (GhostState { fright_steps: steps, ..*old(self) }),
    {
        self.fright_steps = steps;
    }

    /// Counts the frightened steps down by one.
    pub fn dec_fright_steps(&mut self)
        requires
            old(self).fright_steps > 0,
        ensures
            *final(self) == (GhostState {
                fright_steps: (old(self).fright_steps - 1) as u8,
                ..*old(self)
            }),
    {
        self.fright_steps -= 1;
    }

    pub open spec fn spec_is_frightened(&self) -> bool {
        self.fright_steps > 0
    }

    /// Whether the ghost has frightened steps left.
    #[verifier::when_used_as_spec(spec_is_frightened)]
    pub fn is_frightened(&self) -> (b: bool)
        ensures
            b == (self.fright_steps > 0),
    {
        self.fright_steps > 0
    }

    /// Sets the number of steps for which the ghost only turns around.
    pub fn set_trapped_steps(&mut self, steps: u8)
        ensures
            *final(self) == (GhostState { trapped_steps: steps, ..*old(self) }),
    {
        self.trapped_steps = steps;
    }

    /// Counts the trapped steps down by one.
    pub fn dec_trapped_steps(&mut self)
        requires
            old(self).trapped_steps > 0,
        ensures
            *final(self) == (GhostState {
                trapped_steps: (old(self).trapped_steps - 1) as u8,
                ..*old(self)
            }),
    {
        self.trapped_steps -= 1;
    }

    pub open spec fn spec_is_trapped(&self) -> bool {
        self.trapped_steps > 0
    }

    /// Whether the ghost has trapped steps left.
    #[verifier::when_used_as_spec(spec_is_trapped)]
    pub fn is_trapped(&self) -> (b: bool)
        ensures
            b == (self.trapped_steps > 0),
    {
        self.trapped_steps > 0
    }

    /// Sets the spawning flag.
    pub fn set_spawning(&mut self, spawning: bool)
        ensures
            *final(self) == (GhostState { spawning, ..*old(self) }),
    {
        self.spawning = spawning;
    }

    /// Whether the ghost is on its way out of the ghost house.
    pub fn is_spawning(&self) -> (b: bool)
        ensures
            b == self.spawning,
    {
        self.spawning
    }

    /// Sets the eaten flag.
    pub fn set_eaten(&mut self, eaten: bool)
        ensures
            *final(self) == (GhostState { eaten, ..*old(self) }),
    {
        self.eaten = eaten;
    }

    /// Whether the ghost was eaten and has not been updated since.
    pub fn is_eaten(&self) -> (b: bool)
        ensures
            b == self.eaten,
    {
        self.eaten
    }

    /// The ghost that a location and two auxiliary bytes stand for.
    pub open spec fn spec_from_bytes(
        color: GhostColor,
        location: LocationState,
        aux: u8,
        aux2: u8,
    ) -> GhostState {
        GhostState {
            loc: location,
            next_loc: location,
            scatter_target: spec_ghost_scatter_target(color),
            color,
            trapped_steps: aux2 % 64,
            fright_steps: aux % 64,
            spawning: aux >= 128,
            eaten: aux2 >= 128,
        }
    }

    /// Builds a ghost from a decoded location and its auxiliary bytes; the
    /// planned location starts as the current one.
    pub fn from_bytes(color: GhostColor, location: LocationState, aux: u8, aux2: u8) -> (g: Self)
        ensures
            g == Self::spec_from_bytes(color, location, aux, aux2),
    {
        let mut s = Self {
            loc: location,
            next_loc: location,
            scatter_target: ghost_scatter_target(color),
            color,
            trapped_steps: 0,
            fright_steps: 0,
            spawning: false,
            eaten: false,
        };
        s.update_aux(aux);
        s.update_aux2(aux2);
        s
    }
}

} // verus!
