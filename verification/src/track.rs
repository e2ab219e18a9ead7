use vstd::prelude::*;
use crate::game_state::{is_maze, GameState};
use crate::ghost_state::{GhostColor, GhostState};
use crate::location::{Direction, LocationState, Position};
use crate::maze_shape::{lemma_ghost_can_move_on, lemma_red_spawn_is_open};
use crate::variables::GHOST_HOUSE_EXIT_POS;

verus! {

impl GameState {
    /// Whether a ghost with the given spawning flag is on track at `loc`: it
    /// is unplaced, or it stands on a cell that it may enter and faces, not
    /// staying, a cell that it may enter.
    pub open spec fn on_track_at(&self, loc: LocationState, spawning: bool) -> bool {
        loc.spec_is_empty() || (loc.dir != Direction::Stay && self.enterable(
            spawning,
            loc.spec_get_coords(),
        ) && self.enterable(spawning, loc.spec_get_neighbor_coords(loc.dir)))
    }

    /// Whether ghost `i` is on track: where it is, as it is, and where it
    /// plans to be, as its next update will leave it.
    pub open spec fn ghost_on_track(&self, i: int) -> bool {
        &&& self.on_track_at(self.ghosts[i].loc, self.ghosts[i].spawning)
        &&& self.on_track_at(self.ghosts[i].next_loc, self.ghosts[i].spec_update().spawning)
    }

    /// Whether every ghost is on track.
    pub open spec fn on_track(&self) -> bool {
        &&& self.ghost_on_track(0)
        &&& self.ghost_on_track(1)
        &&& self.ghost_on_track(2)
        &&& self.ghost_on_track(3)
    }

    /// A ghost that is on track somewhere stays on track there when it stops
    /// spawning on Red's spawn cell.
    pub proof fn lemma_track_survives_end_of_spawning(&self, loc: LocationState, spawning: bool)
        requires
            self.on_track_at(loc, spawning),
        ensures
            self.on_track_at(
                loc,
                spawning && !(loc.spec_collides_with(
                    crate::variables::spec_ghost_spawn_loc(GhostColor::Red),
                ) && loc.dir != Direction::Down),
            ),
    {
    }

    /// Being on track depends on the walls and on the ghost, and on nothing else.
    pub proof fn lemma_track_frame(a: GameState, b: GameState, i: int)
        requires
            0 <= i < 4,
            a.walls == b.walls,
            a.ghosts[i].loc == b.ghosts[i].loc,
            a.ghosts[i].next_loc == b.ghosts[i].next_loc,
            a.ghosts[i].spawning == b.ghosts[i].spawning,
        ensures
            a.ghost_on_track(i) == b.ghost_on_track(i),
    {
    }

    /// A ghost on track stays on track when it is updated.
    pub proof fn lemma_update_keeps_track(&self, i: int)
        requires
            0 <= i < 4,
            self.ghost_on_track(i),
        ensures
            self.spec_update_all_ghosts().ghost_on_track(i),
    {
        let g = self.ghosts[i];
        let after = self.spec_update_all_ghosts();
        assert(after.ghosts[i] == g.spec_update());
        self.lemma_track_survives_end_of_spawning(g.next_loc, g.spec_update().spawning);
        assert(after.enterable_like(*self));
    }

    /// Whether the same cells may be entered as in `other`.
    pub open spec fn enterable_like(&self, other: GameState) -> bool {
        forall|spawning: bool, cell: Position|
            #[trigger] self.enterable(spawning, cell) == other.enterable(spawning, cell)
    }

    /// A ghost on track stays on track when it plans.
    pub proof fn lemma_plan_keeps_track(&self, i: int, g: GhostState, after: GameState)
        requires
            0 <= i < 4,
            self.ghost_on_track(i),
            self.plan_result(i, g),
            after.walls == self.walls,
            after.ghosts[i] == g,
        ensures
            after.ghost_on_track(i),
    {
        let g0 = self.ghosts[i];
        let next = self.planned_loc(i);
        assert(after.enterable_like(*self));
        if !g0.loc.spec_is_empty() {
            assert(g.loc == g0.loc && g.spawning == g0.spawning);
            assert(g.spec_update().spawning == g0.spec_update().spawning);
            assert(g.next_loc.spec_get_coords() == next.spec_get_coords());
            if g0.trapped_steps > 0 {
                assert(g.next_loc.spec_get_neighbor_coords(g.next_loc.dir)
                    == g0.loc.spec_get_coords());
            } else {
                assert(self.move_valid(i, g.next_loc.dir));
            }
        }
    }

    /// A ghost that was just reset is on track, unless no life is left.
    pub proof fn lemma_reset_is_on_track(&self, i: int)
        requires
            0 <= i < 4,
            is_maze(self.walls),
            self.curr_lives > 0,
        ensures
            self.spec_reset_all_ghosts().ghost_on_track(i),
    {
        lemma_red_spawn_is_open(*self);
        let after = self.spec_reset_all_ghosts();
        assert(after.enterable_like(*self));
        assert(after.ghosts[i] == self.ghosts[i].spec_reset());
    }

    /// A ghost that was just eaten is on track.
    pub proof fn lemma_respawn_is_on_track(&self, g: GhostState)
        ensures
            self.on_track_at(g.spec_respawn().loc, g.spec_respawn().spawning),
            self.on_track_at(g.spec_respawn().next_loc, g.spec_respawn().spec_update().spawning),
    {
    }

    /// Planning cannot fail in the maze while every ghost is on track.
    pub proof fn lemma_on_track_is_plannable(&self)
        requires
            is_maze(self.walls),
            self.on_track(),
        ensures
            self.plannable(),
    {
        if self.chooses(0) {
            lemma_ghost_can_move_on(*self, 0);
        }
        if self.chooses(1) {
            lemma_ghost_can_move_on(*self, 1);
        }
        if self.chooses(2) {
            lemma_ghost_can_move_on(*self, 2);
        }
        if self.chooses(3) {
            lemma_ghost_can_move_on(*self, 3);
        }
    }

    /// Every ghost of a new game is on track.
    pub proof fn lemma_new_game_is_on_track(seed: u64)
        ensures
            GameState::spec_new_with_seed(seed).on_track(),
            is_maze(GameState::spec_new_with_seed(seed).walls),
    {
        let s = GameState::spec_new_with_seed(seed);
        crate::game_state::lemma_is_maze(s.walls);
        lemma_red_spawn_is_open(s);
    }

    /// Updating the ghosts keeps them on track.
    pub proof fn lemma_update_all_keeps_track(&self)
        requires
            self.on_track(),
        ensures
            self.spec_update_all_ghosts().on_track(),
    {
        self.lemma_update_keeps_track(0);
        self.lemma_update_keeps_track(1);
        self.lemma_update_keeps_track(2);
        self.lemma_update_keeps_track(3);
    }

    /// Planning keeps the ghosts on track.
    pub proof fn lemma_planned_keeps_track(&self, after: GameState)
        requires
            self.on_track(),
            self.planned(after),
        ensures
            after.on_track(),
    {
        self.lemma_plan_keeps_track(0, after.ghosts[0], after);
        self.lemma_plan_keeps_track(1, after.ghosts[1], after);
        self.lemma_plan_keeps_track(2, after.ghosts[2], after);
        self.lemma_plan_keeps_track(3, after.ghosts[3], after);
    }

    /// Whether no ghost is placed.
    pub open spec fn no_ghost_placed(&self) -> bool {
        forall|i: int| 0 <= i < 4 ==> (#[trigger] self.ghosts[i]).loc.spec_is_empty()
    }

    /// Resetting the ghosts takes them all off the board, and leaves them on
    /// track if a life is left.
    pub proof fn lemma_reset_all_keeps_track(&self)
        requires
            is_maze(self.walls),
        ensures
            self.spec_reset_all_ghosts().no_ghost_placed(),
            self.curr_lives > 0 ==> self.spec_reset_all_ghosts().on_track(),
    {
        if self.curr_lives > 0 {
            self.lemma_reset_is_on_track(0);
            self.lemma_reset_is_on_track(1);
            self.lemma_reset_is_on_track(2);
            self.lemma_reset_is_on_track(3);
        }
    }

    /// Resolving the collisions keeps the ghosts on track, unless Pacman
    /// loses its last life; and if Pacman dies no ghost is placed after it.
    pub proof fn lemma_collisions_keep_track(&self)
        requires
            is_maze(self.walls),
            self.on_track(),
        ensures
            is_maze(self.spec_check_collisions().walls),
            self.pacman_dies() ==> self.spec_check_collisions().no_ghost_placed(),
            !self.pacman_dies() || self.curr_lives >= 2
                ==> self.spec_check_collisions().on_track(),
    {
        let after = self.spec_check_collisions();
        if self.pacman_dies() {
            let s = GameState {
                pacman_loc: crate::location::spec_empty_loc(),
                ..*self
            }.spec_decrement_lives();
            let s = if s.num_pellets > crate::variables::ANGER_THRESHOLD1 {
                GameState {
                    mode: crate::variables::INIT_MODE,
                    mode_steps: crate::variables::INIT_MODE.spec_duration(),
                    ..s
                }
            } else {
                s
            };
            let s = GameState { fruit_steps: 0, ..s };
            assert(after == s.spec_reset_all_ghosts());
            s.lemma_reset_all_keeps_track();
        } else {
            assert(after.enterable_like(*self));
            self.lemma_respawn_is_on_track(self.ghosts[0]);
            self.lemma_respawn_is_on_track(self.ghosts[1]);
            self.lemma_respawn_is_on_track(self.ghosts[2]);
            self.lemma_respawn_is_on_track(self.ghosts[3]);
        }
    }

    /// The bookkeeping of a step keeps the ghosts on track.
    pub proof fn lemma_step_events_keep_track(&self)
        requires
            self.on_track(),
        ensures
            self.spec_handle_step_events().on_track(),
            self.spec_handle_step_events().walls == self.walls,
            self.no_ghost_placed() ==> self.spec_handle_step_events().no_ghost_placed(),
    {
        let after = self.spec_handle_step_events();
        assert(after.enterable_like(*self));
        assert forall|i: int| 0 <= i < 4 implies after.ghosts[i].loc == self.ghosts[i].loc
            && after.ghosts[i].next_loc == self.ghosts[i].next_loc && after.ghosts[i].spawning
            == self.ghosts[i].spawning by {}
        Self::lemma_track_frame(after, *self, 0);
        Self::lemma_track_frame(after, *self, 1);
        Self::lemma_track_frame(after, *self, 2);
        Self::lemma_track_frame(after, *self, 3);
    }

    /// Collecting keeps the ghosts on track while a life is left.
    pub proof fn lemma_collect_keeps_track(&self, pos: Position)
        requires
            is_maze(self.walls),
            self.on_track(),
            self.curr_lives > 0,
        ensures
            self.spec_collect_pellet(pos).on_track(),
            is_maze(self.spec_collect_pellet(pos).walls),
    {
        let after = self.spec_collect_pellet(pos);
        let fruitless = self.spec_collect_fruit();
        if fruitless.spec_pellet_at(pos) {
            let taken = fruitless.spec_take_pellet(pos);
            assert(taken.walls == self.walls);
            assert forall|i: int| 0 <= i < 4 implies taken.ghosts[i].loc == self.ghosts[i].loc
                && taken.ghosts[i].next_loc == self.ghosts[i].next_loc && taken.ghosts[i].spawning
                == self.ghosts[i].spawning by {}
            Self::lemma_track_frame(taken, *self, 0);
            Self::lemma_track_frame(taken, *self, 1);
            Self::lemma_track_frame(taken, *self, 2);
            Self::lemma_track_frame(taken, *self, 3);
            if taken.num_pellets == 0 && !(taken.num_pellets == crate::variables::ANGER_THRESHOLD1
                || taken.num_pellets == crate::variables::ANGER_THRESHOLD2) {
                let spawned = if taken.fruit_steps == 0 && (taken.num_pellets
                    == crate::variables::FRUIT_THRESHOLD1 || taken.num_pellets
                    == crate::variables::FRUIT_THRESHOLD2) {
                    GameState { fruit_steps: crate::variables::FRUIT_DURATION, ..taken }
                } else {
                    taken
                };
                let cleared = GameState {
                    pacman_loc: crate::location::spec_empty_loc(),
                    mode: crate::variables::INIT_MODE,
                    mode_steps: crate::variables::INIT_MODE.spec_duration(),
                    level_steps: crate::variables::LEVEL_DURATION,
                    fruit_steps: 0,
                    ..spawned
                };
                cleared.lemma_reset_all_keeps_track();
                let reset = cleared.spec_reset_all_ghosts();
                assert(after.walls == reset.walls);
                assert(after.ghosts == reset.ghosts);
                Self::lemma_track_frame(after, reset, 0);
                Self::lemma_track_frame(after, reset, 1);
                Self::lemma_track_frame(after, reset, 2);
                Self::lemma_track_frame(after, reset, 3);
            } else {
                assert(after.walls == taken.walls);
                assert(after.ghosts == taken.ghosts);
                Self::lemma_track_frame(after, taken, 0);
                Self::lemma_track_frame(after, taken, 1);
                Self::lemma_track_frame(after, taken, 2);
                Self::lemma_track_frame(after, taken, 3);
            }
        } else {
            Self::lemma_track_frame(after, *self, 0);
            Self::lemma_track_frame(after, *self, 1);
            Self::lemma_track_frame(after, *self, 2);
            Self::lemma_track_frame(after, *self, 3);
        }
    }

    /// In the maze, with every ghost on track, the state before the ghosts
    /// plan in a tick has its ghosts on track or unplaced.
    pub proof fn lemma_before_plan_keeps_track(&self)
        requires
            is_maze(self.walls),
            self.on_track(),
        ensures
            is_maze(self.before_plan().walls),
            self.before_plan().on_track() || self.before_plan().no_ghost_placed(),
            self.before_plan().curr_lives >= 1 ==> self.before_plan().on_track(),
    {
        let ticked = self.spec_next_tick();
        Self::lemma_track_frame(ticked, *self, 0);
        Self::lemma_track_frame(ticked, *self, 1);
        Self::lemma_track_frame(ticked, *self, 2);
        Self::lemma_track_frame(ticked, *self, 3);
        if ticked.spec_update_ready() {
            let updated = ticked.spec_update_all_ghosts();
            ticked.lemma_update_all_keeps_track();
            let respawned = updated.spec_try_respawn_pacman();
            Self::lemma_track_frame(respawned, updated, 0);
            Self::lemma_track_frame(respawned, updated, 1);
            Self::lemma_track_frame(respawned, updated, 2);
            Self::lemma_track_frame(respawned, updated, 3);
            respawned.lemma_collisions_keep_track();
            let resolved = respawned.spec_check_collisions();
            if resolved.on_track() {
                resolved.lemma_step_events_keep_track();
            } else {
                assert(resolved.no_ghost_placed());
                let after = resolved.spec_handle_step_events();
                assert forall|i: int| 0 <= i < 4 implies (#[trigger] after.ghosts[i]).loc
                    == resolved.ghosts[i].loc by {}
            }
        }
    }

    /// In the maze, with every ghost on track, a tick can go through.
    pub proof fn lemma_on_track_is_steppable(&self)
        requires
            is_maze(self.walls),
            self.on_track(),
        ensures
            self.steppable(),
    {
        self.lemma_before_plan_keeps_track();
        let before = self.before_plan();
        if before.on_track() {
            before.lemma_on_track_is_plannable();
        } else {
            assert(before.ghosts[0].loc.spec_is_empty());
            assert(before.ghosts[1].loc.spec_is_empty());
            assert(before.ghosts[2].loc.spec_is_empty());
            assert(before.ghosts[3].loc.spec_is_empty());
        }
    }

    /// In the maze, a tick keeps the ghosts on track while a life is left
    /// after it.
    pub proof fn lemma_step_keeps_track(&self, after: GameState)
        requires
            is_maze(self.walls),
            self.on_track(),
            self.stepped(after),
            after.curr_lives > 0,
        ensures
            after.on_track(),
            is_maze(after.walls),
    {
        self.lemma_before_plan_keeps_track();
        let before = self.before_plan();
        let unpaused = GameState { paused: before.paused, ..after };
        if before.spec_update_ready() {
            before.lemma_planned_keeps_track(unpaused);
        }
        Self::lemma_track_frame(after, unpaused, 0);
        Self::lemma_track_frame(after, unpaused, 1);
        Self::lemma_track_frame(after, unpaused, 2);
        Self::lemma_track_frame(after, unpaused, 3);
    }

    /// Whether a ghost with the given spawning flag may enter `cell`.
    fn can_enter(&self, spawning: bool, cell: Position) -> (b: bool)
        ensures
            b == self.enterable(spawning, cell),
    {
        if spawning && (self.ghost_spawn_at(cell) || (cell.0 == GHOST_HOUSE_EXIT_POS.0 && cell.1
            == GHOST_HOUSE_EXIT_POS.1)) {
            return true;
        }
        !self.wall_at(cell)
    }

    /// Whether a ghost with the given spawning flag is on track at `loc`.
    fn is_on_track_at(&self, loc: LocationState, spawning: bool) -> (b: bool)
        ensures
            b == self.on_track_at(loc, spawning),
    {
        if loc.is_empty() {
            return true;
        }
        if loc.dir == Direction::Stay || !self.can_enter(spawning, loc.get_coords()) {
            return false;
        }
        self.can_enter(spawning, loc.get_neighbor_coords(loc.dir))
    }

    /// Whether every ghost is on track.
    pub fn is_on_track(&self) -> (b: bool)
        ensures
            b == self.on_track(),
    {
        let red_spawn = crate::variables::ghost_spawn_loc(GhostColor::Red);
        let mut i: usize = 0;
        while i < 4
            invariant
                i <= 4,
                red_spawn == crate::variables::spec_ghost_spawn_loc(GhostColor::Red),
                forall|j: int| 0 <= j < i ==> self.ghost_on_track(j),
            decreases 4 - i,
        {
            let g = self.ghosts[i];
            let spawning_next = g.spawning && !(g.loc.collides_with(red_spawn) && g.loc.dir
                != Direction::Down);
            if !self.is_on_track_at(g.loc, g.spawning) || !self.is_on_track_at(
                g.next_loc,
                spawning_next,
            ) {
                assert(!self.ghost_on_track(i as int));
                return false;
            }
            i += 1;
        }
        true
    }
}

} // verus!
