use vstd::prelude::*;
use crate::collisions::{award_combo, combo_points, lemma_combo_points};
use crate::game_modes::GameMode;
use crate::game_helpers::reset_ghost;
use crate::game_state::{spec_sped_up, GameState};
use crate::ghost_state::{GhostColor, GhostState};
use crate::location::{
    lemma_location_round_trip, spec_empty_loc, spec_is_super_pellet, LocationState, Position,
};
use crate::variables::{
    ANGER_THRESHOLD1, ANGER_THRESHOLD2, GHOST_FRIGHT_STEPS, INIT_MODE, INIT_PELLETS,
    INIT_PELLET_COUNT,
};
use crate::wire::{
    decoded, ghost_at, ghost_loc_at, lemma_rows_bytes, lemma_snapshot_holds_one,
    lemma_u32_round_trip, loc_at, pellet_total, raw_state, row_at, rows_bytes, snapshot_error,
    snapshot_holds, u16_be_bytes, u32_be_bytes, DecodeError,
};

verus! {

/// Collecting where no pellet lies changes nothing but a fruit under Pacman,
/// and collecting there once more changes nothing at all: neither the score
/// nor the number of pellets moves.
pub proof fn lemma_collect_empty_cell(s: GameState, pos: Position)
    requires
        !s.spec_pellet_at(pos),
    ensures
        s.spec_collect_pellet(pos) == s.spec_collect_fruit(),
        s.spec_collect_pellet(pos).num_pellets == s.num_pellets,
        s.spec_collect_pellet(pos).spec_collect_pellet(pos) == s.spec_collect_pellet(pos),
        !(s.fruit_steps > 0 && s.pacman_loc.spec_collides_with(s.fruit_loc))
            ==> s.spec_collect_pellet(pos) == s,
{
}

/// A ghost that chooses a direction when the ghosts plan never turns to the
/// reverse of the direction it faces, and never stops.
pub proof fn lemma_planned_never_reverses(s: GameState, after: GameState, i: int)
    requires
        0 <= i < 4,
        s.planned(after),
        s.chooses(i),
    ensures
        after.ghosts[i].next_loc.dir != s.ghosts[i].loc.dir.spec_opposite(),
        s.move_valid(i, after.ghosts[i].next_loc.dir),
{
}

/// Taking a super pellet that is not the last pellet of the level leaves
/// every ghost frightened for the full time and the combo at zero, whatever
/// the ghosts were doing.
pub proof fn lemma_super_pellet_frightens(s: GameState, pos: Position)
    requires
        s.spec_collect_fruit().spec_pellet_at(pos),
        spec_is_super_pellet(pos),
        s.num_pellets > 1,
    ensures
        forall|i: int|
            0 <= i < 4 ==> (#[trigger] s.spec_collect_pellet(pos).ghosts[i]).fright_steps
                == GHOST_FRIGHT_STEPS,
        s.spec_collect_pellet(pos).ghost_combo == 0,
{
}

/// Two ghosts eaten in one pass over the collisions are paid for one after
/// the other, and up to a combo of 7 the second is worth twice the first.
pub proof fn lemma_two_ghosts_eaten(s: GameState)
    requires
        !s.pacman_dies(),
        s.contact_count(4) == 2,
        s.ghost_combo < 8,
    ensures
        s.spec_check_collisions().curr_score == s.curr_score.saturating_add(
            combo_points(s.ghost_combo),
        ).saturating_add(combo_points((s.ghost_combo + 1) as u8)),
        combo_points((s.ghost_combo + 1) as u8) == 2 * combo_points(s.ghost_combo),
        s.spec_check_collisions().ghost_combo == s.ghost_combo + 2,
        s.ghost_combo == 0 ==> combo_points(s.ghost_combo) == 200 && combo_points(
            (s.ghost_combo + 1) as u8,
        ) == 400,
{
    reveal_with_fuel(award_combo, 3);
    lemma_combo_points(s.ghost_combo);
    lemma_combo_points((s.ghost_combo + 1) as u8);
    vstd::arithmetic::power2::lemma_pow2_unfold((s.ghost_combo + 1) as nat);
}

/// Taking the last pellet of a level starts the next level: every pellet is
/// back, the level is one higher unless it is 255, the mode is the initial
/// one with its full time, Pacman is unplaced and every ghost is reset.
pub proof fn lemma_last_pellet_resets_level(s: GameState, pos: Position)
    requires
        s.spec_collect_fruit().spec_pellet_at(pos),
        s.num_pellets == 1,
    ensures
        s.spec_collect_pellet(pos).pellets == INIT_PELLETS,
        s.spec_collect_pellet(pos).num_pellets == INIT_PELLET_COUNT,
        s.spec_collect_pellet(pos).curr_level == (if s.curr_level == 255 {
            255int
        } else {
            s.curr_level + 1
        }),
        s.spec_collect_pellet(pos).mode == INIT_MODE,
        s.spec_collect_pellet(pos).mode_steps == INIT_MODE.spec_duration(),
        s.spec_collect_pellet(pos).pacman_loc == spec_empty_loc(),
        forall|i: int|
            0 <= i < 4 ==> #[trigger] s.spec_collect_pellet(pos).ghosts[i] == reset_ghost(
                s.ghosts[i],
                s.curr_lives,
            ),
{
}

/// Taking the pellet that brings the number left to an anger threshold puts
/// the game into chase mode for the full time, whatever the mode was, and
/// takes two ticks off the update period, which stays at least 1.
pub proof fn lemma_anger_threshold(s: GameState, pos: Position)
    requires
        s.spec_collect_fruit().spec_pellet_at(pos),
        s.num_pellets == ANGER_THRESHOLD1 + 1 || s.num_pellets == ANGER_THRESHOLD2 + 1,
    ensures
        s.spec_collect_pellet(pos).mode == GameMode::CHASE,
        s.spec_collect_pellet(pos).mode_steps == GameMode::CHASE.spec_duration(),
        s.spec_collect_pellet(pos).update_period == spec_sped_up(s.update_period),
        s.spec_collect_pellet(pos).update_period >= 1,
        s.update_period > 3 ==> s.spec_collect_pellet(pos).update_period == s.update_period - 2,
{
}

/// A death with more pellets left than the first anger threshold brings the
/// initial mode back; with no more left than that, the mode stays as it is.
/// Either way a life is lost and the pellets stay.
pub proof fn lemma_death_restores_mode(s: GameState)
    requires
        s.pacman_dies(),
    ensures
        s.num_pellets > ANGER_THRESHOLD1 ==> s.spec_check_collisions().mode == INIT_MODE
            && s.spec_check_collisions().mode_steps == INIT_MODE.spec_duration(),
        s.num_pellets <= ANGER_THRESHOLD1 ==> s.spec_check_collisions().mode == s.mode
            && s.spec_check_collisions().mode_steps == s.mode_steps,
        s.spec_check_collisions().curr_lives == (if s.curr_lives == 0 {
            0int
        } else {
            s.curr_lives - 1
        }),
        s.spec_check_collisions().pellets == s.pellets,
        s.spec_check_collisions().num_pellets == s.num_pellets,
{
}

/// Where the fields of a state stand in its snapshot.
proof fn lemma_snapshot_layout(s: GameState)
    ensures
        s.spec_to_bytes().len() == 152,
        s.spec_to_bytes()[0] == u16_be_bytes((s.curr_ticks % 65536) as u16)[0],
        s.spec_to_bytes()[1] == u16_be_bytes((s.curr_ticks % 65536) as u16)[1],
        s.spec_to_bytes()[2] == s.update_period,
        s.spec_to_bytes()[3] == s.mode_byte(),
        s.spec_to_bytes()[4] == s.mode_steps,
        s.spec_to_bytes()[5] == s.duration_byte(),
        s.spec_to_bytes()[6] == u16_be_bytes(s.curr_score)[0],
        s.spec_to_bytes()[7] == u16_be_bytes(s.curr_score)[1],
        s.spec_to_bytes()[8] == s.curr_level,
        s.spec_to_bytes()[9] == s.curr_lives,
        forall|i: int|
            0 <= i < 4 ==> #[trigger] s.spec_to_bytes()[10 + 3 * i]
                == s.ghosts[i].loc.spec_to_bytes()[0],
        forall|i: int|
            0 <= i < 4 ==> #[trigger] s.spec_to_bytes()[11 + 3 * i]
                == s.ghosts[i].loc.spec_to_bytes()[1],
        forall|i: int|
            0 <= i < 4 ==> #[trigger] s.spec_to_bytes()[12 + 3 * i] == s.ghosts[i].spec_get_aux(),
        s.spec_to_bytes()[22] == s.pacman_loc.spec_to_bytes()[0],
        s.spec_to_bytes()[23] == s.pacman_loc.spec_to_bytes()[1],
        s.spec_to_bytes()[24] == s.fruit_loc.spec_to_bytes()[0],
        s.spec_to_bytes()[25] == s.fruit_loc.spec_to_bytes()[1],
        s.spec_to_bytes()[26] == s.fruit_steps,
        forall|r: int, j: int|
            0 <= r < 31 && 0 <= j < 4 ==> #[trigger] s.spec_to_bytes()[28 + (4 * r + j)]
                == u32_be_bytes(s.pellets[r])[j],
{
    let bytes = s.spec_to_bytes();
    let rows = rows_bytes(s.pellets@);
    lemma_rows_bytes(s.pellets@);
    let fixed = s.header_bytes() + s.ghost_bytes(0) + s.ghost_bytes(1) + s.ghost_bytes(2)
        + s.ghost_bytes(3) + s.pacman_loc.spec_to_bytes() + s.fruit_loc.spec_to_bytes()
        + seq![s.fruit_steps, crate::variables::FRUIT_DURATION];
    assert(s.header_bytes().len() == 10);
    assert(fixed.len() == 28);
    assert(bytes == fixed + rows);
    assert forall|r: int, j: int| 0 <= r < 31 && 0 <= j < 4 implies #[trigger] bytes[28 + (4 * r
        + j)] == u32_be_bytes(s.pellets[r])[j] by {
        assert(bytes[28 + (4 * r + j)] == rows[4 * r + j]);
    }
}

/// The snapshot of a state with locations that can be packed holds those
/// locations and the rows of pellets as they are.
proof fn lemma_snapshot_slots(s: GameState)
    requires
        s.pacman_loc.packable(),
        s.fruit_loc.packable(),
        forall|i: int| 0 <= i < 4 ==> (#[trigger] s.ghosts[i]).loc.packable(),
    ensures
        forall|i: int|
            0 <= i < 4 ==> #[trigger] ghost_loc_at(s.spec_to_bytes(), i) == Ok::<
                LocationState,
                DecodeError,
            >(s.ghosts[i].loc),
        loc_at(s.spec_to_bytes(), 22) == Ok::<LocationState, DecodeError>(s.pacman_loc),
        loc_at(s.spec_to_bytes(), 24) == Ok::<LocationState, DecodeError>(s.fruit_loc),
        forall|r: int| 0 <= r < 31 ==> #[trigger] row_at(s.spec_to_bytes(), r) == s.pellets[r],
        s.spec_to_bytes()[12] == s.ghosts[0].spec_get_aux(),
        s.spec_to_bytes()[15] == s.ghosts[1].spec_get_aux(),
        s.spec_to_bytes()[18] == s.ghosts[2].spec_get_aux(),
        s.spec_to_bytes()[21] == s.ghosts[3].spec_get_aux(),
{
    let bytes = s.spec_to_bytes();
    lemma_snapshot_layout(s);
    assert(bytes[12 + 3 * 0int] == s.ghosts[0].spec_get_aux());
    assert(bytes[12 + 3 * 1int] == s.ghosts[1].spec_get_aux());
    assert(bytes[12 + 3 * 2int] == s.ghosts[2].spec_get_aux());
    assert(bytes[12 + 3 * 3int] == s.ghosts[3].spec_get_aux());
    assert forall|i: int| 0 <= i < 4 implies #[trigger] ghost_loc_at(bytes, i) == Ok::<
        LocationState,
        DecodeError,
    >(s.ghosts[i].loc) by {
        lemma_location_round_trip(s.ghosts[i].loc);
        assert(bytes[10 + 3 * i] == s.ghosts[i].loc.spec_to_bytes()[0]);
        assert(bytes[11 + 3 * i] == s.ghosts[i].loc.spec_to_bytes()[1]);
    }
    lemma_location_round_trip(s.pacman_loc);
    lemma_location_round_trip(s.fruit_loc);
    assert forall|r: int| 0 <= r < 31 implies #[trigger] row_at(bytes, r) == s.pellets[r] by {
        lemma_u32_round_trip(s.pellets[r]);
        assert(bytes[28 + (4 * r + 0)] == u32_be_bytes(s.pellets[r])[0]);
        assert(bytes[28 + (4 * r + 1)] == u32_be_bytes(s.pellets[r])[1]);
        assert(bytes[28 + (4 * r + 2)] == u32_be_bytes(s.pellets[r])[2]);
        assert(bytes[28 + (4 * r + 3)] == u32_be_bytes(s.pellets[r])[3]);
    }
}

/// The state that the snapshot of `s` holds, as the round trip describes it.
pub open spec fn reread(s: GameState, seed: u64, ghosts: [GhostState; 4]) -> GameState {
    GameState {
        curr_ticks: s.curr_ticks % 65536,
        mode: if s.paused {
            GameMode::CHASE
        } else {
            s.mode
        },
        level_steps: 0,
        ghosts,
        ghost_combo: 0,
        num_pellets: pellet_total(s.pellets@) as u16,
        seed,
        ..s
    }
}

/// A ghost as the snapshot of its state holds it: it plans to be where it
/// is, and is neither trapped nor eaten.
pub open spec fn reread_ghost(g: GhostState) -> GhostState {
    GhostState { next_loc: g.loc, trapped_steps: 0, eaten: false, ..g }
}

/// The ghosts of a state as its snapshot holds them.
pub open spec fn reread_ghosts(s: GameState) -> [GhostState; 4] {
    [
        reread_ghost(s.ghosts[0]),
        reread_ghost(s.ghosts[1]),
        reread_ghost(s.ghosts[2]),
        reread_ghost(s.ghosts[3]),
    ]
}

/// A ghost with fewer than 64 frightened steps is read back from its
/// location and its auxiliary byte as `reread_ghost` has it.
proof fn lemma_ghost_round_trip(g: GhostState)
    requires
        g.fright_steps < 64,
        g.scatter_target == crate::variables::spec_ghost_scatter_target(g.color),
    ensures
        GhostState::spec_from_bytes(g.color, g.loc, g.spec_get_aux(), 0) == reread_ghost(g),
{
}

/// The snapshot of a valid state holds each ghost as `reread_ghost` has it.
proof fn lemma_snapshot_ghosts(s: GameState, i: int)
    requires
        s.wf(),
        0 <= i < 4,
    ensures
        ghost_at(s.spec_to_bytes(), i) == reread_ghost(s.ghosts[i]),
        ghost_loc_at(s.spec_to_bytes(), i) is Ok,
{
    let bytes = s.spec_to_bytes();
    let g = s.ghosts[i];
    assert(g.wf());
    assert(g.color == GhostColor::spec_at(i as usize));
    lemma_snapshot_slots(s);
    lemma_ghost_round_trip(g);
    assert(ghost_loc_at(bytes, i) == Ok::<LocationState, DecodeError>(g.loc));
    assert(bytes[12 + 3 * i] == g.spec_get_aux());
}

/// The snapshot of a valid state can be read, and holds the state that
/// `reread` makes of it.
proof fn lemma_snapshot_holds_reread(s: GameState, seed: u64)
    requires
        s.wf(),
    ensures
        snapshot_error(s.spec_to_bytes()) is None,
        snapshot_holds(s.spec_to_bytes(), seed, reread(s, seed, reread_ghosts(s))),
{
    let bytes = s.spec_to_bytes();
    let w = reread(s, seed, reread_ghosts(s));
    lemma_snapshot_layout(s);
    lemma_snapshot_slots(s);
    crate::wire::lemma_pellet_total_bound(s.pellets@, 31);
    crate::game_state::lemma_is_maze(s.walls);
    lemma_snapshot_ghosts(s, 0);
    lemma_snapshot_ghosts(s, 1);
    lemma_snapshot_ghosts(s, 2);
    lemma_snapshot_ghosts(s, 3);
    crate::wire::lemma_u16_round_trip((s.curr_ticks % 65536) as u16);
    crate::wire::lemma_u16_round_trip(s.curr_score);
    assert(loc_at(bytes, 10) == ghost_loc_at(bytes, 0));
    assert(loc_at(bytes, 13) == ghost_loc_at(bytes, 1));
    assert(loc_at(bytes, 16) == ghost_loc_at(bytes, 2));
    assert(loc_at(bytes, 19) == ghost_loc_at(bytes, 3));
}

/// What `reread` makes of a valid state is valid.
proof fn lemma_reread_wf(s: GameState, seed: u64)
    requires
        s.wf(),
    ensures
        reread(s, seed, reread_ghosts(s)).wf(),
{
    let w = reread(s, seed, reread_ghosts(s));
    assert forall|i: int| 0 <= i < 4 implies (#[trigger] w.ghosts[i]).wf() && w.ghosts[i].color.spec_index() == i by {
        assert(s.ghosts[i].wf());
        assert(w.ghosts[i] == reread_ghost(s.ghosts[i]));
    }
}

/// What reading the snapshot of a valid state gives, before the ghosts plan:
/// the snapshot can be read, and the state that it holds has the fields of
/// the state that was encoded, but for these. The ticks keep their low 16
/// bits. A paused game is in chase mode. The steps until the level speeds up
/// and the combo are zero. The number of pellets is that of the pellets on
/// the board. Each ghost keeps its location, frightened steps
/// and spawning flag; it plans to be where it is, is not trapped and not
/// eaten.
pub proof fn lemma_snapshot_of_state(s: GameState, seed: u64)
    requires
        s.wf(),
    ensures
        snapshot_error(s.spec_to_bytes()) is None,
        raw_state(s.spec_to_bytes(), seed) == reread(s, seed, reread_ghosts(s)),
        raw_state(s.spec_to_bytes(), seed).wf(),
{
    lemma_snapshot_holds_reread(s, seed);
    lemma_reread_wf(s, seed);
    crate::wire::lemma_pellet_total_bound(s.pellets@, 31);
    lemma_snapshot_holds_one(
        s.spec_to_bytes(),
        seed,
        reread(s, seed, reread_ghosts(s)),
        raw_state(s.spec_to_bytes(), seed),
    );
}

/// Decoding the snapshot of a valid state succeeds exactly if every ghost
/// that is placed has a valid direction, and fails with `NoValidMove` if not.
/// What it gives has every field of the state that was encoded but these:
/// the ticks keep their low 16 bits; the mode of a paused game is chase; the
/// steps until the level speeds up and the combo are zero; the number of
/// pellets is that of the pellets on the board, which is the number that
/// was encoded if that was counted; the seed is the one given, or what a
/// draw left of it; of each ghost, location, frightened
/// steps, spawning flag, color and scatter target are kept, while it is
/// planned anew, not eaten, and not trapped.
pub proof fn lemma_snapshot_round_trip(s: GameState, seed: u64, r: Result<GameState, DecodeError>)
    requires
        s.wf(),
        decoded(s.spec_to_bytes(), seed, r),
    ensures
        r is Ok <==> (forall|i: int|
            0 <= i < 4 && !s.ghosts[i].loc.spec_is_empty() ==> #[trigger] s.has_valid_move(i)),
        r is Err ==> r == Err::<GameState, DecodeError>(DecodeError::NoValidMove),
        r is Ok ==> r.unwrap() == reread(s, r.unwrap().seed, r.unwrap().ghosts),
        r is Ok ==> forall|i: int|
            0 <= i < 4 ==> (#[trigger] r.unwrap().ghosts[i]) == (GhostState {
                next_loc: r.unwrap().ghosts[i].next_loc,
                ..reread_ghost(s.ghosts[i])
            }),
        r is Ok && s.curr_ticks < 65536 ==> r.unwrap().curr_ticks == s.curr_ticks,
        r is Ok && s.pellets_counted() ==> r.unwrap().num_pellets == s.num_pellets,
        r is Ok && !s.paused ==> r.unwrap().mode == s.mode,
{
    lemma_snapshot_of_state(s, seed);
    let raw = raw_state(s.spec_to_bytes(), seed);
    assert forall|i: int| 0 <= i < 4 implies raw.chooses(i) == !s.ghosts[i].loc.spec_is_empty()
        && raw.has_valid_move(i) == s.has_valid_move(i) by {
        assert(raw.ghosts[i] == reread_ghost(s.ghosts[i]));
        GameState::lemma_valid_moves_frame(raw, s, i);
    }
    if raw.plannable() {
        assert forall|i: int| 0 <= i < 4 && !s.ghosts[i].loc.spec_is_empty() implies #[trigger] s.has_valid_move(
            i,
        ) by {
            assert(raw.chooses(i));
        }
        let t = r.unwrap();
        assert forall|i: int| 0 <= i < 4 implies (#[trigger] t.ghosts[i]) == (GhostState {
            next_loc: t.ghosts[i].next_loc,
            ..reread_ghost(s.ghosts[i])
        }) by {
            assert(raw.ghosts[i] == reread_ghost(s.ghosts[i]));
            assert(raw.plan_result(i, t.ghosts[i]));
        }
    } else {
        let i = if raw.chooses(0) && !raw.has_valid_move(0) {
            0int
        } else if raw.chooses(1) && !raw.has_valid_move(1) {
            1
        } else if raw.chooses(2) && !raw.has_valid_move(2) {
            2
        } else {
            3
        };
        assert(!s.ghosts[i].loc.spec_is_empty() && !s.has_valid_move(i));
    }
}

/// The snapshot of a valid state whose ghosts are on track can always be
/// decoded, and the ghosts of the state that it gives are on track.
pub proof fn lemma_snapshot_round_trip_on_track(
    s: GameState,
    seed: u64,
    r: Result<GameState, DecodeError>,
)
    requires
        s.wf(),
        s.on_track(),
        decoded(s.spec_to_bytes(), seed, r),
    ensures
        r is Ok,
        r.unwrap().on_track(),
{
    lemma_snapshot_of_state(s, seed);
    crate::game_state::lemma_is_maze(s.walls);
    let raw = raw_state(s.spec_to_bytes(), seed);
    assert forall|i: int| 0 <= i < 4 implies raw.ghost_on_track(i) by {
        assert(raw.ghosts[i] == reread_ghost(s.ghosts[i]));
        assert(s.ghost_on_track(i));
        raw.lemma_track_survives_end_of_spawning(s.ghosts[i].loc, s.ghosts[i].spawning);
        assert forall|spawning: bool, cell: Position|
            #[trigger] raw.enterable(spawning, cell) == s.enterable(spawning, cell) by {}
    }
    assert(raw.ghost_on_track(0) && raw.ghost_on_track(1) && raw.ghost_on_track(2)
        && raw.ghost_on_track(3));
    raw.lemma_on_track_is_plannable();
    raw.lemma_planned_keeps_track(r.unwrap());
}

} // verus!
