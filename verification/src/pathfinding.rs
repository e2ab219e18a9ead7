use vstd::prelude::*;
use crate::game_state::GameState;
use crate::location::{Direction, LocationState, Position};
use crate::maze::spec_in_bounds;

verus! {

/// Why Pacman could not be sent to a cell.
#[derive(Copy, Clone, Debug, PartialEq, Eq, Structural)]
pub enum PathError {
    /// The cell is off the board or a wall.
    Wall,
    /// No path leads from where Pacman is to the cell, or Pacman is on it already.
    NoPath,
}

/// The number of cells of the board.
pub const GRID_CELLS: usize = 868;

/// The place of a cell of the board in a list of all cells, row after row.
pub open spec fn cell_index(pos: Position) -> int {
    pos.0 * 28 + pos.1
}

/// The cell next to `pos` in direction `dir`.
pub open spec fn step_from(pos: Position, dir: Direction) -> Position {
    (LocationState { row: pos.0, col: pos.1, dir }).spec_get_neighbor_coords(dir)
}

/// Whether the search has marked the cell `pos`.
spec fn marked(grid: Seq<u8>, pos: Position) -> bool {
    spec_in_bounds(pos) && grid[cell_index(pos)] != 0
}

/// The direction that a mark of 1 to 4 stands for.
spec fn mark_dir(mark: u8) -> Direction {
    if mark == 1 {
        Direction::Up
    } else if mark == 2 {
        Direction::Left
    } else if mark == 3 {
        Direction::Down
    } else {
        Direction::Right
    }
}

/// How many steps the search took to the cell `pos`.
spec fn depth_of(depth: Seq<nat>, start: Position, pos: Position) -> nat {
    if pos == start {
        0
    } else {
        depth[cell_index(pos)]
    }
}

impl GameState {
    /// Whether the step that `loc` stands for can be taken: it goes in one of
    /// the four directions, to a cell that is no wall.
    pub open spec fn path_step(&self, loc: LocationState) -> bool {
        loc.dir != Direction::Stay && !self.spec_wall_at(step_from(loc.spec_get_coords(), loc.dir))
    }

    /// Whether step `k` of `path` ends where step `k + 1` begins.
    pub open spec fn path_linked(path: Seq<LocationState>, k: int) -> bool {
        path[k + 1].spec_get_coords() == step_from(path[k].spec_get_coords(), path[k].dir)
    }

    /// Whether `path` leads from `start` to `end`: it has a first step, which
    /// begins at `start`; each step can be taken and ends where the next
    /// begins; and the last step ends at `end`.
    pub open spec fn is_path(
        &self,
        start: Position,
        end: Position,
        path: Seq<LocationState>,
    ) -> bool {
        &&& path.len() > 0
        &&& path[0].spec_get_coords() == start
        &&& step_from(path.last().spec_get_coords(), path.last().dir) == end
        &&& forall|k: int| 0 <= k < path.len() ==> self.path_step(#[trigger] path[k])
        &&& forall|k: int| 0 <= k < path.len() - 1 ==> #[trigger] Self::path_linked(path, k)
    }

    /// Whether `path` leads from `start` to `end` and no path that does so
    /// has fewer steps.
    pub open spec fn is_shortest_path(
        &self,
        start: Position,
        end: Position,
        path: Seq<LocationState>,
    ) -> bool {
        &&& self.is_path(start, end, path)
        &&& forall|other: Seq<LocationState>|
            #![auto]
            self.is_path(start, end, other) ==> path.len() <= other.len()
    }

    /// Whether some path leads from `start` to `end`.
    pub open spec fn reachable(&self, start: Position, end: Position) -> bool {
        exists|path: Seq<LocationState>| self.is_path(start, end, path)
    }

    /// Whether the search is done with direction `dir` at the cell `pos`:
    /// the cell that it leads to is a wall, or is marked and at most one
    /// step farther from the start than `pos`.
    spec fn closed_at(
        &self,
        grid: Seq<u8>,
        depth: Seq<nat>,
        start: Position,
        pos: Position,
        dir: Direction,
    ) -> bool {
        dir != Direction::Stay && !self.spec_wall_at(step_from(pos, dir)) ==> marked(
            grid,
            step_from(pos, dir),
        ) && depth_of(depth, start, step_from(pos, dir)) <= depth_of(depth, start, pos) + 1
    }

    /// Whether the search is done with the first `n` directions at `pos`.
    spec fn closed_upto(
        &self,
        grid: Seq<u8>,
        depth: Seq<nat>,
        start: Position,
        pos: Position,
        n: int,
    ) -> bool {
        forall|m: int|
            0 <= m < n && m < 4 ==> self.closed_at(
                grid,
                depth,
                start,
                pos,
                #[trigger] Direction::spec_all_except_stay()[m],
            )
    }

    /// Whether the mark of the cell `pos` tells how the search came to it: a
    /// mark of 5 is that of the start; any other names the direction of the
    /// last step, which came from the start or from a marked cell one step
    /// closer to the start, to a cell that is no wall.
    spec fn mark_sound(&self, grid: Seq<u8>, depth: Seq<nat>, start: Position, pos: Position) -> bool {
        let mark = grid[cell_index(pos)];
        let from = step_from(pos, mark_dir(mark).spec_opposite());
        if mark == 5 {
            pos == start
        } else {
            &&& 1 <= mark <= 4
            &&& pos != start
            &&& from == start || marked(grid, from)
            &&& step_from(from, mark_dir(mark)) == pos
            &&& !self.spec_wall_at(pos)
            &&& depth[cell_index(pos)] == depth_of(depth, start, from) + 1
        }
    }

    /// Whether every mark tells how the search came to its cell.
    #[verifier::opaque]
    spec fn marks_sound(&self, grid: Seq<u8>, depth: Seq<nat>, start: Position) -> bool {
        &&& grid.len() == GRID_CELLS
        &&& depth.len() == GRID_CELLS
        &&& forall|c: Position| #[trigger] marked(grid, c) ==> self.mark_sound(grid, depth, start, c)
    }

    /// Whether the queue begins with the start and holds, besides the start,
    /// the marked cells and nothing else, while the end is marked only if it
    /// is the start, and the start is marked if it lies on the board.
    #[verifier::opaque]
    spec fn queue_holds_marks(grid: Seq<u8>, queue: Seq<Position>, start: Position, end: Position) -> bool {
        &&& grid.len() == GRID_CELLS
        &&& queue.len() >= 1
        &&& queue[0] == start
        &&& forall|k: int|
            0 <= k < queue.len() ==> #[trigger] queue[k] == start || marked(grid, queue[k])
        &&& forall|c: Position|
            #[trigger] marked(grid, c) ==> exists|k: int|
                0 <= k < queue.len() && #[trigger] queue[k] == c
        &&& marked(grid, end) ==> end == start
        &&& spec_in_bounds(start) ==> marked(grid, start)
    }

    /// Whether the search is done with every cell of the queue before `head`.
    #[verifier::opaque]
    spec fn queue_closed(
        &self,
        grid: Seq<u8>,
        depth: Seq<nat>,
        queue: Seq<Position>,
        head: int,
        start: Position,
    ) -> bool {
        forall|k: int, d: Direction|
            0 <= k < head && k < queue.len() ==> #[trigger] self.closed_at(
                grid,
                depth,
                start,
                queue[k],
                d,
            )
    }

    /// Whether each cell of the queue is at least as far from the start as
    /// those before it, and none is more than a step farther than the one
    /// at `head`.
    #[verifier::opaque]
    spec fn queue_ordered(depth: Seq<nat>, queue: Seq<Position>, head: int, start: Position) -> bool {
        &&& forall|j: int, k: int|
            0 <= j <= k < queue.len() ==> depth_of(depth, start, #[trigger] queue[j]) <= depth_of(
                depth,
                start,
                #[trigger] queue[k],
            )
        &&& 0 <= head < queue.len() ==> depth_of(depth, start, queue.last()) <= depth_of(
            depth,
            start,
            queue[head],
        ) + 1
    }

    /// What holds of a search while it runs: the marks are sound, the queue
    /// holds the marked cells in the order of their distance from the
    /// start, and the search is done with every cell before `head`.
    spec fn search_inv(
        &self,
        grid: Seq<u8>,
        depth: Seq<nat>,
        queue: Seq<Position>,
        head: int,
        start: Position,
        end: Position,
    ) -> bool {
        &&& 0 <= head <= queue.len()
        &&& self.marks_sound(grid, depth, start)
        &&& Self::queue_holds_marks(grid, queue, start, end)
        &&& self.queue_closed(grid, depth, queue, head, start)
        &&& Self::queue_ordered(depth, queue, head, start)
    }

    /// A search that has marked nothing but its start is in order.
    proof fn lemma_search_begins(
        &self,
        grid: Seq<u8>,
        depth: Seq<nat>,
        queue: Seq<Position>,
        start: Position,
        end: Position,
    )
        requires
            grid.len() == GRID_CELLS,
            depth.len() == GRID_CELLS,
            queue == seq![start],
            forall|i: int|
                0 <= i < GRID_CELLS ==> grid[i] == if spec_in_bounds(start) && i == cell_index(
                    start,
                ) {
                    5u8
                } else {
                    0u8
                },
        ensures
            self.search_inv(grid, depth, queue, 0, start, end),
    {
        reveal(GameState::marks_sound);
        reveal(GameState::queue_holds_marks);
        reveal(GameState::queue_closed);
        reveal(GameState::queue_ordered);
        assert forall|c: Position| #[trigger] marked(grid, c) implies c == start by {
            if c != start {
                lemma_cell_index_distinct(c, start);
            }
        }
        assert(queue[0] == start);
    }

    /// The cell at the head of the queue is the start or a marked cell.
    proof fn lemma_search_front(
        &self,
        grid: Seq<u8>,
        depth: Seq<nat>,
        queue: Seq<Position>,
        head: int,
        start: Position,
        end: Position,
    )
        requires
            self.search_inv(grid, depth, queue, head, start, end),
            head < queue.len(),
        ensures
            queue[head] == start || marked(grid, queue[head]),
            grid.len() == GRID_CELLS,
    {
        reveal(GameState::queue_holds_marks);
    }

    /// A direction that leads into a wall or to a marked cell needs no work.
    proof fn lemma_search_skips(
        &self,
        grid: Seq<u8>,
        depth: Seq<nat>,
        queue: Seq<Position>,
        head: int,
        start: Position,
        end: Position,
        n: int,
    )
        requires
            self.search_inv(grid, depth, queue, head, start, end),
            head < queue.len(),
            0 <= n < 4,
            self.closed_upto(grid, depth, start, queue[head], n),
            self.spec_wall_at(step_from(queue[head], Direction::spec_all_except_stay()[n]))
                || marked(grid, step_from(queue[head], Direction::spec_all_except_stay()[n])),
        ensures
            self.closed_upto(grid, depth, start, queue[head], n + 1),
    {
        reveal(GameState::queue_holds_marks);
        reveal(GameState::queue_ordered);
        let next = step_from(queue[head], Direction::spec_all_except_stay()[n]);
        if marked(grid, next) {
            let j = choose|j: int| 0 <= j < queue.len() && queue[j] == next;
            assert(depth_of(depth, start, queue[j]) <= depth_of(depth, start, queue[queue.len() - 1]));
        }
    }

    /// Whether `after` and `deeper` are `grid` and `depth` with one more
    /// cell marked, `next`, which is `far` steps from the start: every cell
    /// that was marked keeps its mark and its distance.
    spec fn one_more_mark(
        grid: Seq<u8>,
        depth: Seq<nat>,
        after: Seq<u8>,
        deeper: Seq<nat>,
        start: Position,
        next: Position,
        far: nat,
    ) -> bool {
        &&& after.len() == GRID_CELLS
        &&& deeper.len() == GRID_CELLS
        &&& next != start
        &&& !marked(grid, next)
        &&& marked(after, next)
        &&& depth_of(deeper, start, next) == far
        &&& forall|c: Position|
            #[trigger] marked(grid, c) ==> marked(after, c) && after[cell_index(c)]
                == grid[cell_index(c)]
        &&& forall|c: Position| #[trigger] marked(after, c) ==> c == next || marked(grid, c)
        &&& forall|c: Position|
            c == start || marked(grid, c) ==> #[trigger] depth_of(deeper, start, c) == depth_of(
                depth,
                start,
                c,
            )
    }

    /// Marking a cell of the board that holds no mark and is not the start
    /// gives one more mark.
    proof fn lemma_one_more_mark(
        grid: Seq<u8>,
        depth: Seq<nat>,
        start: Position,
        next: Position,
        mark: u8,
        far: nat,
    )
        requires
            grid.len() == GRID_CELLS,
            depth.len() == GRID_CELLS,
            spec_in_bounds(next),
            grid[cell_index(next)] == 0,
            mark != 0,
            next != start,
        ensures
            Self::one_more_mark(
                grid,
                depth,
                grid.update(cell_index(next), mark),
                depth.update(cell_index(next), far),
                start,
                next,
                far,
            ),
    {
        let after = grid.update(cell_index(next), mark);
        let deeper = depth.update(cell_index(next), far);
        assert forall|c: Position| #[trigger] marked(after, c) implies c == next || marked(
            grid,
            c,
        ) by {
            if c != next {
                lemma_cell_index_distinct(c, next);
            }
        }
        assert forall|c: Position| #[trigger] marked(grid, c) implies marked(after, c)
            && after[cell_index(c)] == grid[cell_index(c)] by {
            lemma_cell_index_distinct(c, next);
        }
        assert forall|c: Position| c == start || marked(grid, c) implies #[trigger] depth_of(
            deeper,
            start,
            c,
        ) == depth_of(depth, start, c) by {
            if c != start {
                lemma_cell_index_distinct(c, next);
            }
        }
    }

    /// The mark of a cell next to the start or to a marked cell, which names
    /// the direction that leads to it, is sound if the cell is one step
    /// farther from the start.
    proof fn lemma_new_mark_is_sound(
        &self,
        grid: Seq<u8>,
        depth: Seq<nat>,
        after: Seq<u8>,
        deeper: Seq<nat>,
        start: Position,
        pos: Position,
        next: Position,
        n: int,
    )
        requires
            0 <= n < 4,
            Self::one_more_mark(
                grid,
                depth,
                after,
                deeper,
                start,
                next,
                depth_of(depth, start, pos) + 1,
            ),
            after[cell_index(next)] == n + 1,
            pos == start || marked(grid, pos),
            -128 < pos.0 < 127 && -128 < pos.1 < 127,
            next == step_from(pos, Direction::spec_all_except_stay()[n]),
            !self.spec_wall_at(next),
        ensures
            self.mark_sound(after, deeper, start, next),
    {
        let dir = Direction::spec_all_except_stay()[n];
        assert(mark_dir((n + 1) as u8) == dir);
        assert(step_from(next, dir.spec_opposite()) == pos);
        assert(step_from(pos, dir) == next);
        if pos != start {
            assert(marked(grid, pos));
            assert(marked(after, pos));
        }
        assert(depth_of(deeper, start, pos) == depth_of(depth, start, pos));
    }

    /// A sound mark stays sound when one more cell is marked.
    proof fn lemma_old_mark_stays_sound(
        &self,
        grid: Seq<u8>,
        depth: Seq<nat>,
        after: Seq<u8>,
        deeper: Seq<nat>,
        start: Position,
        next: Position,
        far: nat,
        c: Position,
    )
        requires
            Self::one_more_mark(grid, depth, after, deeper, start, next, far),
            marked(grid, c),
            self.mark_sound(grid, depth, start, c),
        ensures
            self.mark_sound(after, deeper, start, c),
    {
        let mark = grid[cell_index(c)];
        let from = step_from(c, mark_dir(mark).spec_opposite());
        assert(after[cell_index(c)] == mark);
        assert(depth_of(deeper, start, c) == depth_of(depth, start, c));
        if mark != 5 {
            if from != start {
                assert(marked(grid, from));
                assert(marked(after, from));
            }
            assert(depth_of(deeper, start, from) == depth_of(depth, start, from));
        }
    }

    /// The marks stay sound when a cell next to the start or to a marked
    /// cell is marked with the direction that leads to it, one step farther
    /// from the start.
    proof fn lemma_marks_stay_sound(
        &self,
        grid: Seq<u8>,
        depth: Seq<nat>,
        after: Seq<u8>,
        deeper: Seq<nat>,
        start: Position,
        pos: Position,
        next: Position,
        n: int,
    )
        requires
            self.marks_sound(grid, depth, start),
            0 <= n < 4,
            Self::one_more_mark(
                grid,
                depth,
                after,
                deeper,
                start,
                next,
                depth_of(depth, start, pos) + 1,
            ),
            after[cell_index(next)] == n + 1,
            pos == start || marked(grid, pos),
            -128 < pos.0 < 127 && -128 < pos.1 < 127,
            next == step_from(pos, Direction::spec_all_except_stay()[n]),
            !self.spec_wall_at(next),
        ensures
            self.marks_sound(after, deeper, start),
    {
        reveal(GameState::marks_sound);
        let far = depth_of(depth, start, pos) + 1;
        assert forall|c: Position| #[trigger] marked(after, c) implies self.mark_sound(
            after,
            deeper,
            start,
            c,
        ) by {
            if c == next {
                self.lemma_new_mark_is_sound(grid, depth, after, deeper, start, pos, next, n);
            } else {
                assert(marked(grid, c));
                self.lemma_old_mark_stays_sound(grid, depth, after, deeper, start, next, far, c);
            }
        }
    }

    /// The queue goes on holding the marked cells when a cell that is not
    /// the end is marked and put on it.
    proof fn lemma_queue_takes_mark(
        grid: Seq<u8>,
        depth: Seq<nat>,
        after: Seq<u8>,
        deeper: Seq<nat>,
        queue: Seq<Position>,
        start: Position,
        end: Position,
        next: Position,
        far: nat,
    )
        requires
            Self::queue_holds_marks(grid, queue, start, end),
            Self::one_more_mark(grid, depth, after, deeper, start, next, far),
            next != end,
        ensures
            Self::queue_holds_marks(after, queue.push(next), start, end),
    {
        reveal(GameState::queue_holds_marks);
        let longer = queue.push(next);
        assert forall|k: int| 0 <= k < longer.len() implies #[trigger] longer[k] == start || marked(
            after,
            longer[k],
        ) by {
            if k < queue.len() {
                assert(longer[k] == queue[k]);
                if queue[k] != start {
                    assert(marked(grid, queue[k]));
                }
            }
        }
        assert forall|c: Position| #[trigger] marked(after, c) implies exists|k: int|
            0 <= k < longer.len() && #[trigger] longer[k] == c by {
            if c == next {
                assert(longer[queue.len() as int] == c);
            } else {
                assert(marked(grid, c));
                let k = choose|k: int| 0 <= k < queue.len() && queue[k] == c;
                assert(longer[k] == c);
            }
        }
        assert(longer[0] == queue[0]);
        if spec_in_bounds(start) {
            assert(marked(grid, start));
        }
        if marked(after, end) {
            assert(marked(grid, end));
        }
    }

    /// The search stays done with a direction at a cell when one more
    /// cell is marked.
    proof fn lemma_closed_stays(
        &self,
        grid: Seq<u8>,
        depth: Seq<nat>,
        after: Seq<u8>,
        deeper: Seq<nat>,
        start: Position,
        next: Position,
        far: nat,
        c: Position,
        d: Direction,
    )
        requires
            Self::one_more_mark(grid, depth, after, deeper, start, next, far),
            c == start || marked(grid, c),
            self.closed_at(grid, depth, start, c, d),
        ensures
            self.closed_at(after, deeper, start, c, d),
    {
        let to = step_from(c, d);
        if d != Direction::Stay && !self.spec_wall_at(to) {
            assert(marked(grid, to));
            assert(marked(after, to));
            assert(depth_of(deeper, start, to) == depth_of(depth, start, to));
            assert(depth_of(deeper, start, c) == depth_of(depth, start, c));
        }
    }

    /// The search stays done with the cells before the head of the queue
    /// when one more cell is marked and put on the queue.
    proof fn lemma_queue_stays_closed(
        &self,
        grid: Seq<u8>,
        depth: Seq<nat>,
        after: Seq<u8>,
        deeper: Seq<nat>,
        queue: Seq<Position>,
        head: int,
        start: Position,
        end: Position,
        next: Position,
        far: nat,
    )
        requires
            Self::queue_holds_marks(grid, queue, start, end),
            self.queue_closed(grid, depth, queue, head, start),
            Self::one_more_mark(grid, depth, after, deeper, start, next, far),
            0 <= head <= queue.len(),
        ensures
            self.queue_closed(after, deeper, queue.push(next), head, start),
    {
        reveal(GameState::queue_closed);
        let longer = queue.push(next);
        assert forall|k: int, d: Direction|
            0 <= k < head && k < longer.len() implies #[trigger] self.closed_at(
            after,
            deeper,
            start,
            longer[k],
            d,
        ) by {
            assert(longer[k] == queue[k]);
            assert(queue[k] == start || marked(grid, queue[k])) by {
                reveal(GameState::queue_holds_marks);
            }
            assert(self.closed_at(grid, depth, start, queue[k], d));
            self.lemma_closed_stays(grid, depth, after, deeper, start, next, far, queue[k], d);
        }
    }

    /// The queue stays in the order of distance when a cell one step
    /// farther from the start than the cell at its head is put on it.
    proof fn lemma_queue_stays_ordered(
        grid: Seq<u8>,
        depth: Seq<nat>,
        after: Seq<u8>,
        deeper: Seq<nat>,
        queue: Seq<Position>,
        head: int,
        start: Position,
        end: Position,
        next: Position,
    )
        requires
            Self::queue_holds_marks(grid, queue, start, end),
            Self::queue_ordered(depth, queue, head, start),
            0 <= head < queue.len(),
            Self::one_more_mark(
                grid,
                depth,
                after,
                deeper,
                start,
                next,
                depth_of(depth, start, queue[head]) + 1,
            ),
        ensures
            Self::queue_ordered(deeper, queue.push(next), head, start),
    {
        reveal(GameState::queue_ordered);
        let longer = queue.push(next);
        assert forall|k: int| 0 <= k < queue.len() implies depth_of(deeper, start, queue[k])
            == depth_of(depth, start, #[trigger] queue[k]) by {
            reveal(GameState::queue_holds_marks);
        }
        assert(longer.last() == next);
        assert(longer[head] == queue[head]);
        assert forall|j: int, k: int| 0 <= j <= k < longer.len() implies depth_of(
            deeper,
            start,
            #[trigger] longer[j],
        ) <= depth_of(deeper, start, #[trigger] longer[k]) by {
            if j < queue.len() {
                assert(longer[j] == queue[j]);
                assert(depth_of(depth, start, queue[j]) <= depth_of(
                    depth,
                    start,
                    queue[queue.len() - 1],
                ));
                if k < queue.len() {
                    assert(longer[k] == queue[k]);
                    assert(depth_of(depth, start, queue[j]) <= depth_of(depth, start, queue[k]));
                }
            }
        }
    }

    /// Marking an unmarked cell that is no wall, is not the end, and lies
    /// next to the cell at the head of the queue, and putting it on the
    /// queue, keeps the search in order, and is the work that the direction
    /// needed.
    proof fn lemma_search_marks(
        &self,
        grid: Seq<u8>,
        depth: Seq<nat>,
        queue: Seq<Position>,
        head: int,
        start: Position,
        end: Position,
        n: int,
        next: Position,
    )
        requires
            self.search_inv(grid, depth, queue, head, start, end),
            head < queue.len(),
            0 <= n < 4,
            self.closed_upto(grid, depth, start, queue[head], n),
            next == step_from(queue[head], Direction::spec_all_except_stay()[n]),
            i8::MIN < start.0 < i8::MAX,
            i8::MIN < start.1 < i8::MAX,
            !self.spec_wall_at(next),
            grid[cell_index(next)] == 0,
            next != end,
        ensures
            self.search_inv(
                grid.update(cell_index(next), (n + 1) as u8),
                depth.update(cell_index(next), depth_of(depth, start, queue[head]) + 1),
                queue.push(next),
                head,
                start,
                end,
            ),
            self.closed_upto(
                grid.update(cell_index(next), (n + 1) as u8),
                depth.update(cell_index(next), depth_of(depth, start, queue[head]) + 1),
                start,
                queue[head],
                n + 1,
            ),
            unmarked(grid.update(cell_index(next), (n + 1) as u8)) == unmarked(grid) - 1,
    {
        let pos = queue[head];
        let far = depth_of(depth, start, pos) + 1;
        let after = grid.update(cell_index(next), (n + 1) as u8);
        let deeper = depth.update(cell_index(next), far);
        assert(grid.len() == GRID_CELLS && depth.len() == GRID_CELLS) by {
            reveal(GameState::marks_sound);
        }
        assert((pos == start || marked(grid, pos)) && (spec_in_bounds(start) ==> marked(
            grid,
            start,
        ))) by {
            reveal(GameState::queue_holds_marks);
        }
        lemma_unmarked_drops(grid, cell_index(next), (n + 1) as u8);
        Self::lemma_one_more_mark(grid, depth, start, next, (n + 1) as u8, far);
        self.lemma_marks_stay_sound(grid, depth, after, deeper, start, pos, next, n);
        Self::lemma_queue_takes_mark(grid, depth, after, deeper, queue, start, end, next, far);
        self.lemma_queue_stays_closed(
            grid,
            depth,
            after,
            deeper,
            queue,
            head,
            start,
            end,
            next,
            far,
        );
        Self::lemma_queue_stays_ordered(grid, depth, after, deeper, queue, head, start, end, next);
        assert forall|m: int| 0 <= m < n + 1 && m < 4 implies self.closed_at(
            after,
            deeper,
            start,
            pos,
            #[trigger] Direction::spec_all_except_stay()[m],
        ) by {
            let d = Direction::spec_all_except_stay()[m];
            if m < n {
                assert(self.closed_at(grid, depth, start, pos, d));
                self.lemma_closed_stays(grid, depth, after, deeper, start, next, far, pos, d);
            }
        }
    }

    /// When the search is done with all four directions at the head of the
    /// queue, it can go on to the next cell.
    proof fn lemma_search_moves_on(
        &self,
        grid: Seq<u8>,
        depth: Seq<nat>,
        queue: Seq<Position>,
        head: int,
        start: Position,
        end: Position,
    )
        requires
            self.search_inv(grid, depth, queue, head, start, end),
            head < queue.len(),
            self.closed_upto(grid, depth, start, queue[head], 4),
        ensures
            self.search_inv(grid, depth, queue, head + 1, start, end),
    {
        assert(self.queue_closed(grid, depth, queue, head + 1, start)) by {
            reveal(GameState::queue_closed);
            assert forall|k: int, d: Direction|
                0 <= k < head + 1 && k < queue.len() implies #[trigger] self.closed_at(
                grid,
                depth,
                start,
                queue[k],
                d,
            ) by {
                if k == head && d != Direction::Stay {
                    assert(d == Direction::spec_all_except_stay()[d.spec_index() as int]);
                }
            }
        }
        assert(Self::queue_ordered(depth, queue, head + 1, start)) by {
            reveal(GameState::queue_ordered);
            if head + 1 < queue.len() {
                assert(depth_of(depth, start, queue[head]) <= depth_of(
                    depth,
                    start,
                    queue[head + 1],
                ));
            }
        }
    }

    /// A search that is done with every cell of its queue has marked every
    /// cell that a path from the start leads to; so if the end is not the
    /// start, which it has not marked, no path leads there.
    proof fn lemma_search_ends(
        &self,
        grid: Seq<u8>,
        depth: Seq<nat>,
        queue: Seq<Position>,
        start: Position,
        end: Position,
    )
        requires
            self.search_inv(grid, depth, queue, queue.len() as int, start, end),
            start != end,
        ensures
            !self.reachable(start, end),
    {
        reveal(GameState::queue_holds_marks);
        reveal(GameState::queue_closed);
        if self.reachable(start, end) {
            let path = choose|path: Seq<LocationState>| self.is_path(start, end, path);
            assert forall|c: Position, d: Direction|
                c == start || marked(grid, c) implies #[trigger] self.closed_at(
                grid,
                depth,
                start,
                c,
                d,
            ) by {
                let k = if c == start {
                    0
                } else {
                    choose|k: int| 0 <= k < queue.len() && queue[k] == c
                };
                assert(self.closed_at(grid, depth, start, queue[k], d));
            }
            self.lemma_paths_stay_marked(
                grid,
                depth,
                start,
                end,
                path,
                path.len() - 1,
                path.len() as int,
            );
        }
    }

    /// A path of at most `bound` steps from the start stays on cells with
    /// which the search is done, if the search is done with every cell
    /// that is less than `bound` steps from the start; so the path ends
    /// on a marked cell, and its cells are no farther from the start than
    /// the path is long up to them.
    proof fn lemma_paths_stay_marked(
        &self,
        grid: Seq<u8>,
        depth: Seq<nat>,
        start: Position,
        end: Position,
        path: Seq<LocationState>,
        k: int,
        bound: int,
    )
        requires
            self.is_path(start, end, path),
            forall|c: Position, d: Direction|
                (c == start || marked(grid, c)) && depth_of(depth, start, c) < bound
                    ==> #[trigger] self.closed_at(grid, depth, start, c, d),
            0 <= k < path.len() <= bound,
        ensures
            path[k].spec_get_coords() == start || marked(grid, path[k].spec_get_coords()),
            depth_of(depth, start, path[k].spec_get_coords()) <= k,
            k == path.len() - 1 ==> marked(grid, end),
        decreases k,
    {
        if k > 0 {
            self.lemma_paths_stay_marked(grid, depth, start, end, path, k - 1, bound);
            assert(Self::path_linked(path, k - 1));
            assert(self.path_step(path[k - 1]));
            assert(self.closed_at(
                grid,
                depth,
                start,
                path[k - 1].spec_get_coords(),
                path[k - 1].dir,
            ));
        }
        assert(self.path_step(path[k]));
        assert(self.closed_at(grid, depth, start, path[k].spec_get_coords(), path[k].dir));
    }

    /// Searches breadth first for a path from `start` to `end`, and returns a
    /// path that is as short as any. Each entry of the path is a cell with
    /// the direction in which to leave it. There is none from a cell to itself.
    pub fn bfs(&self, start: Position, end: Position) -> (r: Option<Vec<LocationState>>)
        requires
            i8::MIN < start.0 < i8::MAX,
            i8::MIN < start.1 < i8::MAX,
        ensures
            r is Some ==> self.is_shortest_path(start, end, r.unwrap()@),
            r is None <==> start == end || !self.reachable(start, end),
    {
        let dirs = Direction::all_except_stay();
        let mut grid: Vec<u8> = vec![0u8; GRID_CELLS];
        let ghost mut depth: Seq<nat> = Seq::new(GRID_CELLS as nat, |i: int| 0nat);
        let mut queue: Vec<Position> = Vec::new();
        queue.push(start);
        if self.in_bounds(start) {
            grid[cell_slot(start)] = 5;
        }
        proof {
            assert(queue@ =~= seq![start]);
            self.lemma_search_begins(grid@, depth, queue@, start, end);
        }
        let mut head: usize = 0;
        while head < queue.len()
            invariant
                i8::MIN < start.0 < i8::MAX,
                i8::MIN < start.1 < i8::MAX,
                dirs@ == Direction::spec_all_except_stay(),
                grid@.len() == GRID_CELLS,
                head <= queue@.len(),
                self.search_inv(grid@, depth, queue@, head as int, start, end),
            decreases 2 * unmarked(grid@) + queue@.len() - head,
        {
            proof {
                self.lemma_search_front(grid@, depth, queue@, head as int, start, end);
            }
            let pos = queue[head];
            let ghost measure = 2 * unmarked(grid@) + queue@.len();
            let mut n: usize = 0;
            while n < 4
                invariant
                    n <= 4,
                    i8::MIN < start.0 < i8::MAX,
                    i8::MIN < start.1 < i8::MAX,
                    dirs@ == Direction::spec_all_except_stay(),
                    grid@.len() == GRID_CELLS,
                    head < queue@.len(),
                    pos == queue@[head as int],
                    pos == start || marked(grid@, pos),
                    self.search_inv(grid@, depth, queue@, head as int, start, end),
                    self.closed_upto(grid@, depth, start, pos, n as int),
                    2 * unmarked(grid@) + queue@.len() <= measure,
                decreases 4 - n,
            {
                let dir = dirs[n];
                let loc = LocationState { row: pos.0, col: pos.1, dir };
                let next = loc.get_neighbor_coords(dir);
                if !self.wall_at(next) && grid[cell_slot(next)] == 0 {
                    if next.0 == end.0 && next.1 == end.1 {
                        proof {
                            self.lemma_search_found(grid@, depth, queue@, head as int, start, end);
                        }
                        let path = self.path_back(&grid, Ghost(depth), start, end, loc);
                        return Some(path);
                    }
                    proof {
                        self.lemma_search_marks(
                            grid@,
                            depth,
                            queue@,
                            head as int,
                            start,
                            end,
                            n as int,
                            next,
                        );
                        depth = depth.update(cell_index(next), depth_of(depth, start, pos) + 1);
                        assert(marked(grid@.update(cell_index(next), (n + 1) as u8), pos) || pos
                            == start) by {
                            if pos != start {
                                lemma_cell_index_distinct(pos, next);
                            }
                        }
                    }
                    grid[cell_slot(next)] = (n + 1) as u8;
                    queue.push(next);
                } else {
                    proof {
                        self.lemma_search_skips(
                            grid@,
                            depth,
                            queue@,
                            head as int,
                            start,
                            end,
                            n as int,
                        );
                    }
                }
                n += 1;
            }
            proof {
                self.lemma_search_moves_on(grid@, depth, queue@, head as int, start, end);
            }
            head += 1;
        }
        proof {
            if start != end {
                self.lemma_search_ends(grid@, depth, queue@, start, end);
            }
        }
        None
    }

    /// When a search comes upon the end, which it has not marked, its marks
    /// are sound, the end is not the start, and every path from the start to
    /// the end is longer than the cell at the head of the queue is far from
    /// the start.
    proof fn lemma_search_found(
        &self,
        grid: Seq<u8>,
        depth: Seq<nat>,
        queue: Seq<Position>,
        head: int,
        start: Position,
        end: Position,
    )
        requires
            self.search_inv(grid, depth, queue, head, start, end),
            head < queue.len(),
            spec_in_bounds(end),
            !marked(grid, end),
        ensures
            self.marks_sound(grid, depth, start),
            end != start,
            forall|other: Seq<LocationState>|
                #![auto]
                self.is_path(start, end, other) ==> other.len() > depth_of(
                    depth,
                    start,
                    queue[head],
                ),
    {
        reveal(GameState::queue_holds_marks);
        reveal(GameState::queue_closed);
        reveal(GameState::queue_ordered);
        let bound = depth_of(depth, start, queue[head]) as int;
        assert forall|c: Position, d: Direction|
            (c == start || marked(grid, c)) && depth_of(depth, start, c)
                < bound implies #[trigger] self.closed_at(grid, depth, start, c, d) by {
            let k = if c == start {
                0
            } else {
                choose|k: int| 0 <= k < queue.len() && queue[k] == c
            };
            if k >= head {
                assert(depth_of(depth, start, queue[head]) <= depth_of(depth, start, queue[k]));
            }
            assert(self.closed_at(grid, depth, start, queue[k], d));
        }
        assert forall|other: Seq<LocationState>|
            #![auto]
            self.is_path(start, end, other) implies other.len() > bound by {
            if other.len() <= bound {
                self.lemma_paths_stay_marked(
                    grid,
                    depth,
                    start,
                    end,
                    other,
                    other.len() - 1,
                    bound,
                );
            }
        }
    }

    /// A path goes on being a path when a step that leads to its first cell
    /// is put before it.
    proof fn lemma_path_grows(
        &self,
        node: Position,
        end: Position,
        path: Seq<LocationState>,
        step: LocationState,
    )
        requires
            self.is_path(node, end, path),
            self.path_step(step),
            step_from(step.spec_get_coords(), step.dir) == node,
        ensures
            self.is_path(step.spec_get_coords(), end, path.insert(0, step)),
    {
        let longer = path.insert(0, step);
        assert(longer[0] == step);
        assert forall|k: int| 0 <= k < longer.len() implies self.path_step(#[trigger] longer[k]) by {
            if k > 0 {
                assert(longer[k] == path[k - 1]);
            }
        }
        assert forall|k: int| 0 <= k < longer.len() - 1 implies #[trigger] Self::path_linked(
            longer,
            k,
        ) by {
            assert(longer[k + 1] == path[k]);
            if k > 0 {
                assert(Self::path_linked(path, k - 1));
                assert(longer[k] == path[k - 1]);
            }
        }
        assert(longer.last() == path.last());
    }

    /// The step that led the search to a marked cell that is not the start:
    /// it comes from the start or from a marked cell that is closer to the start.
    proof fn lemma_mark_leads_back(
        &self,
        grid: Seq<u8>,
        depth: Seq<nat>,
        start: Position,
        node: Position,
    )
        requires
            self.marks_sound(grid, depth, start),
            marked(grid, node),
        ensures
            grid[cell_index(node)] == 5 ==> node == start,
            grid[cell_index(node)] != 5 ==> {
                let dir = mark_dir(grid[cell_index(node)]);
                let from = step_from(node, dir.spec_opposite());
                &&& 1 <= grid[cell_index(node)] <= 4
                &&& node != start
                &&& from == start || marked(grid, from)
                &&& step_from(from, dir) == node
                &&& !self.spec_wall_at(node)
                &&& depth_of(depth, start, node) == depth_of(depth, start, from) + 1
            },
    {
        reveal(GameState::marks_sound);
        assert(self.mark_sound(grid, depth, start, node));
    }

    /// Follows the marks of a search back from the cell of `last` to the
    /// start, and returns the path that the search took, `last` being its
    /// last step.
    fn path_back(
        &self,
        grid: &Vec<u8>,
        Ghost(depth): Ghost<Seq<nat>>,
        start: Position,
        end: Position,
        last: LocationState,
    ) -> (path: Vec<LocationState>)
        requires
            grid@.len() == GRID_CELLS,
            self.marks_sound(grid@, depth, start),
            last.spec_get_coords() == start || marked(grid@, last.spec_get_coords()),
            self.path_step(last),
            step_from(last.spec_get_coords(), last.dir) == end,
        ensures
            self.is_path(start, end, path@),
            path@.len() == depth_of(depth, start, last.spec_get_coords()) + 1,
    {
        let mut path: Vec<LocationState> = Vec::new();
        path.push(last);
        let mut node: Position = last.get_coords();
        assert(path@[0] == last);
        loop
            invariant
                grid@.len() == GRID_CELLS,
                self.marks_sound(grid@, depth, start),
                node == start || marked(grid@, node),
                self.is_path(node, end, path@),
                path@.len() + depth_of(depth, start, node) == depth_of(
                    depth,
                    start,
                    last.spec_get_coords(),
                ) + 1,
            ensures
                self.is_path(start, end, path@),
                path@.len() == depth_of(depth, start, last.spec_get_coords()) + 1,
            decreases depth_of(depth, start, node),
        {
            if !self.in_bounds(node) {
                break ;
            }
            let mark = grid[cell_slot(node)];
            if mark == 0 {
                break ;
            }
            proof {
                self.lemma_mark_leads_back(grid@, depth, start, node);
            }
            if mark >= 5 {
                break ;
            }
            let dir = if mark == 1 {
                Direction::Up
            } else if mark == 2 {
                Direction::Left
            } else if mark == 3 {
                Direction::Down
            } else {
                Direction::Right
            };
            let here = LocationState { row: node.0, col: node.1, dir };
            let from = here.get_neighbor_coords(dir.opposite());
            let step = LocationState { row: from.0, col: from.1, dir };
            proof {
                self.lemma_path_grows(node, end, path@, step);
            }
            path.insert(0, step);
            node = from;
        }
        path
    }
}

impl GameState {
    /// The state after Pacman tried to take the steps of `path` one after
    /// the other, each as a move in the direction of the step.
    pub open spec fn spec_follow(self, path: Seq<LocationState>) -> GameState
        decreases path.len(),
    {
        if path.len() == 0 {
            self
        } else {
            self.spec_follow(path.drop_last()).spec_move_pacman_dir(path.last().dir)
        }
    }

    /// Moves Pacman along the steps of `path`.
    fn follow(&mut self, path: &Vec<LocationState>)
        requires
            old(self).combo_has_room(),
            old(self).pacman_loc.has_neighbors(),
        ensures
            *final(self) == old(self).spec_follow(path@),
            final(self).combo_has_room(),
            old(self).wf() ==> final(self).wf(),
    {
        let ghost prev = *self;
        let mut i: usize = 0;
        while i < path.len()
            invariant
                i <= path@.len(),
                self.combo_has_room(),
                self.pacman_loc.has_neighbors(),
                prev.wf() ==> self.wf(),
                *self == prev.spec_follow(path@.take(i as int)),
            decreases path@.len() - i,
        {
            proof {
                let steps = path@.take(i + 1);
                assert(steps.drop_last() =~= path@.take(i as int));
                assert(steps.last() == path@[i as int]);
            }
            proof {
                self.lemma_room_fits();
            }
            self.move_pacman_dir(path[i].dir);
            i += 1;
        }
        assert(path@.take(path@.len() as int) =~= path@);
    }

    /// Sends Pacman to the cell `location`. A cell off the board or in a
    /// wall is refused, and so is one to which no path leads from where
    /// Pacman is; the state then stays as it is. Else Pacman moves along a
    /// shortest path to the cell, step by step as `move_pacman_dir` does,
    /// collects what lies on the cell, and its collisions are resolved.
    pub fn set_pacman_location(&mut self, location: Position) -> (r: Result<(), PathError>)
        requires
            old(self).combo_has_room(),
            old(self).pacman_loc.has_neighbors(),
        ensures
            old(self).wf() ==> final(self).wf(),
            r == Err::<(), PathError>(PathError::Wall) <==> old(self).spec_wall_at(location),
            r == Err::<(), PathError>(PathError::NoPath) <==> !old(self).spec_wall_at(location) && (
            old(self).pacman_loc.spec_get_coords() == location || !old(self).reachable(
                old(self).pacman_loc.spec_get_coords(),
                location,
            )),
            r is Err ==> *final(self) == *old(self),
            r is Ok ==> exists|path: Seq<LocationState>|
                #![auto]
                old(self).is_shortest_path(old(self).pacman_loc.spec_get_coords(), location, path)
                    && *final(self) == old(self).spec_follow(path).spec_collect_pellet(
                    location,
                ).spec_check_collisions(),
    {
        if !self.in_bounds(location) || self.wall_at(location) {
            return Err(PathError::Wall);
        }
        let likely_path = self.bfs((self.pacman_loc.row, self.pacman_loc.col), location);
        match likely_path {
            Some(path) => {
                self.follow(&path);
                self.collect_pellet(location);
                proof {
                    self.lemma_room_fits();
                }
                self.check_collisions();
                proof {
                    let start = old(self).pacman_loc.spec_get_coords();
                    assert(old(self).is_shortest_path(start, location, path@) && *self == old(self).spec_follow(path@).spec_collect_pellet(location).spec_check_collisions());
                }
                Ok(())
            },
            None => Err(PathError::NoPath),
        }
    }
}

/// The place of a cell of the board in the list of all cells.
fn cell_slot(pos: Position) -> (i: usize)
    requires
        spec_in_bounds(pos),
    ensures
        i == cell_index(pos),
        i < GRID_CELLS,
{
    (pos.0 as usize) * 28 + (pos.1 as usize)
}

/// Two cells of the board with the same place in the list are the same cell.
proof fn lemma_cell_index_distinct(a: Position, b: Position)
    requires
        spec_in_bounds(a),
        spec_in_bounds(b),
        a != b,
    ensures
        cell_index(a) != cell_index(b),
{
}

/// The number of cells of `grid` that hold no mark.
spec fn unmarked(grid: Seq<u8>) -> nat
    decreases grid.len(),
{
    if grid.len() == 0 {
        0
    } else {
        unmarked(grid.drop_last()) + if grid.last() == 0 {
            1nat
        } else {
            0nat
        }
    }
}

/// Marking a cell that holds no mark leaves one cell less without a mark.
proof fn lemma_unmarked_drops(grid: Seq<u8>, i: int, mark: u8)
    requires
        0 <= i < grid.len(),
        grid[i] == 0,
        mark != 0,
    ensures
        unmarked(grid.update(i, mark)) == unmarked(grid) - 1,
    decreases grid.len(),
{
    let after = grid.update(i, mark);
    if i == grid.len() - 1 {
        assert(after.drop_last() =~= grid.drop_last());
    } else {
        lemma_unmarked_drops(grid.drop_last(), i, mark);
        assert(after.drop_last() =~= grid.drop_last().update(i, mark));
    }
}

} // verus!
