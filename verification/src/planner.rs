use vstd::prelude::*;
use crate::game_modes::GameMode;
use crate::game_state::GameState;
use crate::ghost_state::{GhostColor, GhostState};
use crate::location::{dist_sq, spec_dist_sq, Direction, LocationState, Position};
use crate::maze::spec_ghost_spawn_at;
use crate::rng::{rng_choose, rng_from_seed, rng_next_u64};
use crate::variables::{ghost_spawn_loc, spec_ghost_spawn_loc, GHOST_HOUSE_EXIT_POS};

verus! {

impl GameState {
    /// Red's target in chase mode: the cell Pacman is on.
    pub open spec fn spec_chase_target_red(&self) -> Position {
        self.pacman_loc.spec_get_coords()
    }

    /// Pink's target in chase mode: the cell four steps ahead of Pacman.
    pub open spec fn spec_chase_target_pink(&self) -> Position {
        self.pacman_loc.spec_get_ahead_coords(4)
    }

    /// Cyan's target in chase mode: Red's cell, mirrored at the cell two steps
    /// ahead of Pacman.
    pub open spec fn spec_chase_target_cyan(&self) -> Position {
        let pivot = self.pacman_loc.spec_get_ahead_coords(2);
        let red = self.ghosts[0].loc;
        ((2 * pivot.0 - red.row) as i8, (2 * pivot.1 - red.col) as i8)
    }

    /// Orange's target in chase mode: the cell Pacman is on, but its own
    /// scatter target once the squared distance to Pacman is 64 or more.
    pub open spec fn spec_chase_target_orange(&self) -> Position {
        let pacman_pos = self.pacman_loc.spec_get_coords();
        if spec_dist_sq(self.ghosts[3].loc.spec_get_coords(), pacman_pos) >= 64 {
            self.ghosts[3].scatter_target.spec_get_coords()
        } else {
            pacman_pos
        }
    }

    /// The target of a ghost of the given color in chase mode.
    pub open spec fn spec_get_chase_target(&self, color: GhostColor) -> Position {
        match color {
            GhostColor::Red => self.spec_chase_target_red(),
            GhostColor::Pink => self.spec_chase_target_pink(),
            GhostColor::Cyan => self.spec_chase_target_cyan(),
            GhostColor::Orange => self.spec_chase_target_orange(),
        }
    }

    /// Red heads for the cell Pacman is on.
    fn get_chase_target_red(&self) -> (p: Position)
        ensures
            p == self.spec_chase_target_red(),
    {
        self.pacman_loc.get_coords()
    }

    /// Pink heads for the cell four steps ahead of Pacman.
    fn get_chase_target_pink(&self) -> (p: Position)
        requires
            self.pacman_loc.in_range(),
        ensures
            p == self.spec_chase_target_pink(),
    {
        self.pacman_loc.get_ahead_coords(4)
    }

    /// Cyan heads for Red's cell, mirrored at the cell two steps ahead of Pacman.
    fn get_chase_target_cyan(&self) -> (p: Position)
        requires
            self.pacman_loc.in_range(),
            self.ghosts[0].loc.in_range(),
        ensures
            p == self.spec_chase_target_cyan(),
    {
        let (pivot_row, pivot_col) = self.pacman_loc.get_ahead_coords(2);
        let (red_row, red_col) = self.ghosts[0].loc.get_coords();
        ((2 * pivot_row - red_row), (2 * pivot_col - red_col))
    }

    /// Orange heads for Pacman from close by, and for its scatter target
    /// from a squared distance of 64 or more.
    fn get_chase_target_orange(&self) -> (p: Position)
        ensures
            p == self.spec_chase_target_orange(),
    {
        let pacman_pos = self.pacman_loc.get_coords();
        let orange_pos = self.ghosts[3].loc.get_coords();
        if dist_sq(orange_pos, pacman_pos) >= 64 {
            return self.ghosts[3].scatter_target.get_coords();
        }
        pacman_pos
    }

    /// The cell that a ghost of the given color heads for in chase mode.
    pub fn get_chase_target(&self, color: GhostColor) -> (p: Position)
        requires
            self.pacman_loc.in_range(),
            self.ghosts[0].loc.in_range(),
        ensures
            p == self.spec_get_chase_target(color),
    {
        match color {
            GhostColor::Red => self.get_chase_target_red(),
            GhostColor::Pink => self.get_chase_target_pink(),
            GhostColor::Cyan => self.get_chase_target_cyan(),
            GhostColor::Orange => self.get_chase_target_orange(),
        }
    }

    /// Where ghost `i` will stand after its next move: one cell ahead of
    /// where it is, facing the same way.
    pub open spec fn planned_loc(&self, i: int) -> LocationState {
        LocationState::spec_advance_from(self.ghosts[i].loc)
    }

    /// The cell that ghost `i` plans towards: Red's spawn cell while the ghost
    /// is spawning and neither is nor will be on that cell, and else its chase
    /// target in chase mode and its scatter target in scatter mode.
    pub open spec fn plan_target(&self, i: int) -> Position {
        let g = self.ghosts[i];
        let red_spawn = spec_ghost_spawn_loc(GhostColor::Red);
        if g.spawning && !g.loc.spec_collides_with(red_spawn) && !self.planned_loc(
            i,
        ).spec_collides_with(red_spawn) {
            red_spawn.spec_get_coords()
        } else {
            match self.mode {
                GameMode::CHASE => self.spec_get_chase_target(g.color),
                GameMode::SCATTER => g.scatter_target.spec_get_coords(),
            }
        }
    }

    /// Whether a ghost may enter `cell`: any cell that is no wall, and while
    /// it is spawning also the ghost house and its exit.
    pub open spec fn enterable(&self, spawning: bool, cell: Position) -> bool {
        (spawning && (spec_ghost_spawn_at(cell) || cell == GHOST_HOUSE_EXIT_POS))
            || !self.spec_wall_at(cell)
    }

    /// Whether ghost `i` may enter `cell`.
    pub open spec fn may_enter(&self, i: int, cell: Position) -> bool {
        self.enterable(self.ghosts[i].spawning, cell)
    }

    /// Whether ghost `i` may turn to `dir` at the cell it moves to: it may
    /// neither stay nor reverse, and has to lead to a cell that it may enter.
    pub open spec fn move_valid(&self, i: int, dir: Direction) -> bool {
        let next = self.planned_loc(i);
        &&& dir != Direction::Stay
        &&& dir != next.dir.spec_opposite()
        &&& self.may_enter(i, next.spec_get_neighbor_coords(dir))
    }

    /// The squared distance to the target of ghost `i` from the cell that
    /// `dir` leads it to.
    pub open spec fn move_dist(&self, i: int, dir: Direction) -> int {
        spec_dist_sq(self.planned_loc(i).spec_get_neighbor_coords(dir), self.plan_target(i))
    }

    /// Whether ghost `i` has no reason to prefer `other` to `dir`: `other` is
    /// not valid, or leads farther from the target, or as far but comes later
    /// in the order Up, Left, Down, Right.
    pub open spec fn not_beaten_by(&self, i: int, dir: Direction, other: Direction) -> bool {
        ||| !self.move_valid(i, other)
        ||| self.move_dist(i, dir) < self.move_dist(i, other)
        ||| (self.move_dist(i, dir) == self.move_dist(i, other) && dir.spec_index()
            <= other.spec_index())
    }

    /// Whether `dir` is the valid direction that brings ghost `i` closest to
    /// its target, the first such in the order Up, Left, Down, Right.
    pub open spec fn is_best_move(&self, i: int, dir: Direction) -> bool {
        &&& self.move_valid(i, dir)
        &&& self.not_beaten_by(i, dir, Direction::Up)
        &&& self.not_beaten_by(i, dir, Direction::Left)
        &&& self.not_beaten_by(i, dir, Direction::Down)
        &&& self.not_beaten_by(i, dir, Direction::Right)
    }

    /// Whether ghost `i` has a valid direction at the cell it moves to.
    pub open spec fn has_valid_move(&self, i: int) -> bool {
        self.move_valid(i, Direction::Up) || self.move_valid(i, Direction::Left)
            || self.move_valid(i, Direction::Down) || self.move_valid(i, Direction::Right)
    }

    /// Whether ghost `i` chooses a direction when it plans: it is placed and
    /// not trapped.
    pub open spec fn chooses(&self, i: int) -> bool {
        !self.ghosts[i].loc.spec_is_empty() && self.ghosts[i].trapped_steps == 0
    }

    /// Whether ghost `i` chooses its direction at random when it plans: it
    /// chooses, and will still be frightened after this step.
    pub open spec fn draws(&self, i: int) -> bool {
        self.chooses(i) && self.ghosts[i].fright_steps > 1
    }

    /// Whether planning can go through: every ghost that chooses a direction
    /// has a valid one.
    pub open spec fn plannable(&self) -> bool {
        &&& self.chooses(0) ==> self.has_valid_move(0)
        &&& self.chooses(1) ==> self.has_valid_move(1)
        &&& self.chooses(2) ==> self.has_valid_move(2)
        &&& self.chooses(3) ==> self.has_valid_move(3)
    }

    /// Whether `g` is what planning can make of ghost `i`. An unplaced ghost
    /// stays as it is. Any other moves its planned location one cell ahead of
    /// where it is. A trapped ghost then faces the other way and is trapped for
    /// a step less. Any other ghost turns to a valid direction: to any of them
    /// if it draws, and else to the best.
    pub open spec fn plan_result(&self, i: int, g: GhostState) -> bool {
        let g0 = self.ghosts[i];
        let next = self.planned_loc(i);
        if g0.loc.spec_is_empty() {
            g == g0
        } else if g0.trapped_steps > 0 {
            g == (GhostState {
                next_loc: LocationState { dir: next.dir.spec_opposite(), ..next },
                trapped_steps: (g0.trapped_steps - 1) as u8,
                ..g0
            })
        } else {
            &&& g == (GhostState { next_loc: LocationState { dir: g.next_loc.dir, ..next }, ..g0 })
            &&& if g0.fright_steps > 1 {
                self.move_valid(i, g.next_loc.dir)
            } else {
                self.is_best_move(i, g.next_loc.dir)
            }
        }
    }

    /// Whether `after` is a state that planning all ghosts can lead to from
    /// this one: each ghost is planned from this state, the seed is replaced
    /// only where a ghost draws, and nothing else changes.
    pub open spec fn planned(&self, after: GameState) -> bool {
        &&& self.plan_result(0, after.ghosts[0])
        &&& self.plan_result(1, after.ghosts[1])
        &&& self.plan_result(2, after.ghosts[2])
        &&& self.plan_result(3, after.ghosts[3])
        &&& after == (GameState { ghosts: after.ghosts, seed: after.seed, ..*self })
        &&& !self.draws_among(4) ==> after.seed == self.seed
    }

    /// Whether one of the first `k` ghosts draws when it plans.
    pub open spec fn draws_among(&self, k: int) -> bool {
        (k > 0 && self.draws(0)) || (k > 1 && self.draws(1)) || (k > 2 && self.draws(2)) || (k > 3
            && self.draws(3))
    }

    /// Which directions are valid for a ghost depends on where the ghost is,
    /// on whether it is spawning, and on the walls, and on nothing else.
    pub proof fn lemma_valid_moves_frame(a: GameState, b: GameState, i: int)
        requires
            0 <= i < 4,
            a.walls == b.walls,
            a.ghosts[i].loc == b.ghosts[i].loc,
            a.ghosts[i].spawning == b.ghosts[i].spawning,
        ensures
            forall|d: Direction| a.move_valid(i, d) == b.move_valid(i, d),
            a.has_valid_move(i) == b.has_valid_move(i),
    {
        assert(a.planned_loc(i) == b.planned_loc(i));
    }

    /// Planning a ghost reads, besides the ghost, only Pacman's location, the
    /// mode, the walls, and where Red and Orange are: two states that agree on
    /// these plan the ghost alike.
    proof fn lemma_plan_frame(a: GameState, b: GameState, i: int, g: GhostState)
        requires
            0 <= i < 4,
            a.pacman_loc == b.pacman_loc,
            a.mode == b.mode,
            a.walls == b.walls,
            a.ghosts[i] == b.ghosts[i],
            a.ghosts[0].loc == b.ghosts[0].loc,
            a.ghosts[3].loc == b.ghosts[3].loc,
            a.ghosts[3].scatter_target == b.ghosts[3].scatter_target,
        ensures
            a.plan_result(i, g) == b.plan_result(i, g),
            a.chooses(i) == b.chooses(i),
            a.draws(i) == b.draws(i),
            a.has_valid_move(i) == b.has_valid_move(i),
    {
        assert(a.planned_loc(i) == b.planned_loc(i));
        assert(a.plan_target(i) == b.plan_target(i));
        assert(forall|d: Direction| a.move_valid(i, d) == b.move_valid(i, d));
        assert(forall|d: Direction| a.move_dist(i, d) == b.move_dist(i, d));
        assert(forall|d: Direction, e: Direction|
            a.not_beaten_by(i, d, e) == b.not_beaten_by(i, d, e));
        assert(forall|d: Direction| a.is_best_move(i, d) == b.is_best_move(i, d));
    }

    /// Whether ghost `ghost_idx` may turn to `dir` at `next`, the cell it moves to.
    fn move_allowed(&self, ghost_idx: usize, next: LocationState, dir: Direction) -> (b: bool)
        requires
            ghost_idx < 4,
            next == self.planned_loc(ghost_idx as int),
            next.in_range(),
        ensures
            b == self.move_valid(ghost_idx as int, dir),
    {
        if dir == Direction::Stay || dir == next.dir.opposite() {
            return false;
        }
        let loc = next.get_neighbor_coords(dir);
        if self.ghosts[ghost_idx].spawning {
            if self.ghost_spawn_at(loc) {
                return true;
            }
            if loc.0 == GHOST_HOUSE_EXIT_POS.0 && loc.1 == GHOST_HOUSE_EXIT_POS.1 {
                return true;
            }
        }
        !self.wall_at(loc)
    }

    /// The valid directions of ghost `ghost_idx` at `next`, the cell it moves
    /// to, in the order Up, Left, Down, Right.
    fn valid_moves(&self, ghost_idx: usize, next: LocationState) -> (moves: Vec<Direction>)
        requires
            ghost_idx < 4,
            next == self.planned_loc(ghost_idx as int),
            next.in_range(),
        ensures
            forall|k: int|
                0 <= k < moves@.len() ==> self.move_valid(ghost_idx as int, #[trigger] moves@[k]),
            forall|d: Direction|
                self.move_valid(ghost_idx as int, d) ==> exists|k: int|
                    0 <= k < moves@.len() && #[trigger] moves@[k] == d,
            forall|a: int, b: int|
                0 <= a < b < moves@.len() ==> (#[trigger] moves@[a]).spec_index() < (
                #[trigger] moves@[b]).spec_index(),
    {
        let dirs = Direction::all_except_stay();
        let mut moves: Vec<Direction> = Vec::new();
        let mut n: usize = 0;
        while n < 4
            invariant
                n <= 4,
                ghost_idx < 4,
                next == self.planned_loc(ghost_idx as int),
                next.in_range(),
                dirs@ == Direction::spec_all_except_stay(),
                forall|k: int|
                    0 <= k < moves@.len() ==> self.move_valid(
                        ghost_idx as int,
                        #[trigger] moves@[k],
                    ) && moves@[k].spec_index() < n,
                forall|m: int|
                    0 <= m < n && self.move_valid(ghost_idx as int, dirs@[m]) ==> exists|k: int|
                        0 <= k < moves@.len() && #[trigger] moves@[k] == dirs@[m],
                forall|a: int, b: int|
                    0 <= a < b < moves@.len() ==> (#[trigger] moves@[a]).spec_index() < (
                    #[trigger] moves@[b]).spec_index(),
            decreases 4 - n,
        {
            let dir = dirs[n];
            if self.move_allowed(ghost_idx, next, dir) {
                let ghost before = moves@;
                moves.push(dir);
                assert(moves@[before.len() as int] == dir);
                assert forall|m: int|
                    0 <= m < n + 1 && self.move_valid(
                        ghost_idx as int,
                        dirs@[m],
                    ) implies exists|k: int|
                    0 <= k < moves@.len() && #[trigger] moves@[k] == dirs@[m] by {
                    if m < n {
                        let k = choose|k: int| 0 <= k < before.len() && before[k] == dirs@[m];
                        assert(moves@[k] == dirs@[m]);
                    } else {
                        assert(moves@[before.len() as int] == dirs@[m]);
                    }
                }
            }
            n += 1;
        }
        assert forall|d: Direction| self.move_valid(ghost_idx as int, d) implies exists|k: int|
            0 <= k < moves@.len() && #[trigger] moves@[k] == d by {
            assert(d == dirs@[d.spec_index() as int]);
        }
        moves
    }

    /// The first of `moves` among those that lead closest to `target`.
    fn closest_move(
        &self,
        ghost_idx: usize,
        next: LocationState,
        target: Position,
        moves: &Vec<Direction>,
    ) -> (best: Direction)
        requires
            ghost_idx < 4,
            next == self.planned_loc(ghost_idx as int),
            next.in_range(),
            target == self.plan_target(ghost_idx as int),
            moves@.len() > 0,
            forall|k: int|
                0 <= k < moves@.len() ==> self.move_valid(ghost_idx as int, #[trigger] moves@[k]),
            forall|d: Direction|
                self.move_valid(ghost_idx as int, d) ==> exists|k: int|
                    0 <= k < moves@.len() && #[trigger] moves@[k] == d,
            forall|a: int, b: int|
                0 <= a < b < moves@.len() ==> (#[trigger] moves@[a]).spec_index() < (
                #[trigger] moves@[b]).spec_index(),
        ensures
            self.is_best_move(ghost_idx as int, best),
    {
        let mut best_at: usize = 0;
        let mut best_dist: u32 = dist_sq(next.get_neighbor_coords(moves[0]), target);
        let mut k: usize = 1;
        while k < moves.len()
            invariant
                1 <= k <= moves@.len(),
                best_at < k,
                ghost_idx < 4,
                next == self.planned_loc(ghost_idx as int),
                next.in_range(),
                target == self.plan_target(ghost_idx as int),
                forall|m: int|
                    0 <= m < moves@.len() ==> self.move_valid(
                        ghost_idx as int,
                        #[trigger] moves@[m],
                    ),
                best_dist == self.move_dist(ghost_idx as int, moves@[best_at as int]),
                forall|m: int|
                    0 <= m < k ==> best_dist < self.move_dist(ghost_idx as int, #[trigger] moves@[m])
                        || (best_dist == self.move_dist(ghost_idx as int, moves@[m]) && best_at
                        <= m),
            decreases moves@.len() - k,
        {
            let d = dist_sq(next.get_neighbor_coords(moves[k]), target);
            if d < best_dist {
                best_at = k;
                best_dist = d;
            }
            k += 1;
        }
        let best = moves[best_at];
        proof {
            let i = ghost_idx as int;
            assert forall|other: Direction| self.move_valid(i, other) implies self.not_beaten_by(
                i,
                best,
                other,
            ) by {
                let m = choose|m: int| 0 <= m < moves@.len() && moves@[m] == other;
                assert(moves@[m] == other);
                if best_at < m {
                    assert(moves@[best_at as int].spec_index() < moves@[m].spec_index());
                }
            }
        }
        best
    }

    /// Whether `drawn` can be handed to the planning of ghost `i`: if the
    /// ghost draws, it holds a valid direction.
    pub open spec fn draw_fits(&self, i: int, drawn: Option<Direction>) -> bool {
        self.draws(i) ==> drawn is Some && self.move_valid(i, drawn.unwrap())
    }

    /// What planning makes of one ghost for which `drawn` was drawn.
    fn planned_ghost(&self, ghost_idx: usize, drawn: Option<Direction>) -> (g: GhostState)
        requires
            ghost_idx < 4,
            self.pacman_loc.in_range(),
            self.ghosts[0].loc.in_range(),
            self.ghosts[ghost_idx as int].wf(),
            self.chooses(ghost_idx as int) ==> self.has_valid_move(ghost_idx as int),
            self.draw_fits(ghost_idx as int, drawn),
        ensures
            self.plan_result(ghost_idx as int, g),
            self.draws(ghost_idx as int) ==> g.next_loc.dir == drawn.unwrap(),
            g.wf(),
    {
        let ghost i = ghost_idx as int;
        let mut g = self.ghosts[ghost_idx];
        if g.loc.is_empty() {
            return g;
        }
        let loc = g.loc;
        g.next_loc.advance_from(loc);
        let next = g.next_loc;
        if g.is_trapped() {
            g.next_loc.dir = next.dir.opposite();
            g.dec_trapped_steps();
            return g;
        }
        let red_spawn = ghost_spawn_loc(GhostColor::Red);
        let target_loc = if g.spawning && !loc.collides_with(red_spawn) && !next.collides_with(
            red_spawn,
        ) {
            red_spawn.get_coords()
        } else {
            match self.mode {
                GameMode::CHASE => self.get_chase_target(g.color),
                GameMode::SCATTER => g.scatter_target.get_coords(),
            }
        };
        let chosen = if g.fright_steps > 1 {
            drawn.unwrap()
        } else {
            let valid_moves = self.valid_moves(ghost_idx, next);
            proof {
                self.lemma_some_move_is_listed(i, valid_moves@);
            }
            self.closest_move(ghost_idx, next, target_loc, &valid_moves)
        };
        assert(self.move_valid(i, chosen));
        g.next_loc.dir = chosen;
        g
    }

    /// A list that holds every valid direction of a ghost that has one is
    /// not empty.
    proof fn lemma_some_move_is_listed(&self, i: int, moves: Seq<Direction>)
        requires
            self.has_valid_move(i),
            forall|d: Direction|
                self.move_valid(i, d) ==> exists|k: int|
                    0 <= k < moves.len() && #[trigger] moves[k] == d,
        ensures
            moves.len() > 0,
    {
        let d = if self.move_valid(i, Direction::Up) {
            Direction::Up
        } else if self.move_valid(i, Direction::Left) {
            Direction::Left
        } else if self.move_valid(i, Direction::Down) {
            Direction::Down
        } else {
            Direction::Right
        };
        assert(self.move_valid(i, d));
        let k = choose|k: int| 0 <= k < moves.len() && moves[k] == d;
    }

    /// Plans the next move of one ghost. A ghost that draws its direction
    /// takes `drawn`; for any other ghost `drawn` is not looked at.
    pub fn plan_ghost(&mut self, ghost_idx: usize, drawn: Option<Direction>)
        requires
            ghost_idx < 4,
            old(self).wf(),
            old(self).chooses(ghost_idx as int) ==> old(self).has_valid_move(ghost_idx as int),
            old(self).draw_fits(ghost_idx as int, drawn),
        ensures
            old(self).plan_result(ghost_idx as int, final(self).ghosts[ghost_idx as int]),
            old(self).draws(ghost_idx as int) ==> final(self).ghosts[ghost_idx as int].next_loc.dir
                == drawn.unwrap(),
            forall|j: int|
                0 <= j < 4 && j != ghost_idx ==> final(self).ghosts[j] == old(self).ghosts[j],
            *final(self) == (GameState { ghosts: final(self).ghosts, ..*old(self) }),
            final(self).wf(),
    {
        let g = self.planned_ghost(ghost_idx, drawn);
        self.ghosts[ghost_idx] = g;
        assert(self.edible_count() == old(self).edible_count());
    }

    /// Draws the direction of a ghost that draws one, and replaces the seed
    /// by what the draw leaves of it; for any other ghost nothing happens.
    fn draw_move(&mut self, ghost_idx: usize) -> (drawn: Option<Direction>)
        requires
            ghost_idx < 4,
            old(self).ghosts[ghost_idx as int].wf(),
            old(self).chooses(ghost_idx as int) ==> old(self).has_valid_move(ghost_idx as int),
        ensures
            old(self).draw_fits(ghost_idx as int, drawn),
            *final(self) == (GameState { seed: final(self).seed, ..*old(self) }),
            !old(self).draws(ghost_idx as int) ==> final(self).seed == old(self).seed,
    {
        let g = self.ghosts[ghost_idx];
        if g.loc.is_empty() || g.is_trapped() || g.fright_steps <= 1 {
            return None;
        }
        let mut next = g.loc;
        next.advance_from(g.loc);
        let valid_moves = self.valid_moves(ghost_idx, next);
        let mut rng = rng_from_seed(self.seed);
        let chosen_move = rng_choose(&mut rng, &valid_moves);
        self.seed = rng_next_u64(&mut rng);
        proof {
            let i = ghost_idx as int;
            old(self).lemma_some_move_is_listed(i, valid_moves@);
            let k = choose|k: int|
                0 <= k < valid_moves@.len() && valid_moves@[k] == chosen_move.unwrap();
            assert(old(self).move_valid(i, valid_moves@[k]));
        }
        chosen_move
    }

    /// Whether every ghost that would choose a direction has a valid one.
    pub fn can_plan(&self) -> (b: bool)
        requires
            self.wf(),
        ensures
            b == self.plannable(),
    {
        let mut i: usize = 0;
        while i < 4
            invariant
                i <= 4,
                self.wf(),
                forall|j: int| 0 <= j < i ==> (self.chooses(j) ==> self.has_valid_move(j)),
            decreases 4 - i,
        {
            if !self.ghosts[i].loc.is_empty() && !self.ghosts[i].is_trapped() {
                let mut next = self.ghosts[i].loc;
                next.advance_from(self.ghosts[i].loc);
                let moves = self.valid_moves(i, next);
                if moves.len() == 0 {
                    return false;
                }
                assert(self.move_valid(i as int, moves@[0]));
            }
            i += 1;
        }
        true
    }

    /// Plans the next move of every ghost, Red first.
    pub fn plan_all_ghosts(&mut self)
        requires
            old(self).wf(),
            old(self).plannable(),
        ensures
            old(self).planned(*final(self)),
            final(self).wf(),
    {
        let ghost prev = *self;
        let mut ghost_idx: usize = 0;
        while ghost_idx < 4
            invariant
                ghost_idx <= 4,
                prev.wf(),
                prev.plannable(),
                self.wf(),
                *self == (GameState { ghosts: self.ghosts, seed: self.seed, ..prev }),
                forall|j: int| 0 <= j < 4 ==> (#[trigger] self.ghosts[j]).loc == prev.ghosts[j].loc,
                forall|j: int|
                    0 <= j < 4 ==> (#[trigger] self.ghosts[j]).scatter_target
                        == prev.ghosts[j].scatter_target,
                forall|j: int| 0 <= j < ghost_idx ==> prev.plan_result(j, self.ghosts[j]),
                forall|j: int| ghost_idx <= j < 4 ==> self.ghosts[j] == prev.ghosts[j],
                !prev.draws_among(ghost_idx as int) ==> self.seed == prev.seed,
            decreases 4 - ghost_idx,
        {
            let ghost before = *self;
            proof {
                Self::lemma_plan_frame(
                    before,
                    prev,
                    ghost_idx as int,
                    before.ghosts[ghost_idx as int],
                );
            }
            let drawn = self.draw_move(ghost_idx);
            let ghost seeded = *self;
            proof {
                Self::lemma_valid_moves_frame(seeded, before, ghost_idx as int);
                assert(self.edible_count() == before.edible_count());
            }
            self.plan_ghost(ghost_idx, drawn);
            proof {
                Self::lemma_plan_frame(
                    seeded,
                    prev,
                    ghost_idx as int,
                    self.ghosts[ghost_idx as int],
                );
            }
            ghost_idx += 1;
        }
    }
}

} // verus!
