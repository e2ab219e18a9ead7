use pacbot_rs::game_modes::GameMode;
use pacbot_rs::game_state::GameState;
use pacbot_rs::ghost_state::{GhostColor, GhostState};
use pacbot_rs::location::{empty_loc, Direction, LocationState};
use pacbot_rs::variables::{INIT_PELLETS, INIT_WALLS};
use pacbot_rs::wire::{count_ones, push_u16, push_u32, read_u16, read_u32, DecodeError, SNAPSHOT_LEN};

#[test]
fn big_endian_numbers() {
    let bytes = [0x12u8, 0x34, 0x56, 0x78, 0x9a];
    assert_eq!(read_u16(&bytes, 0), 0x1234);
    assert_eq!(read_u16(&bytes, 3), 0x789a);
    assert_eq!(read_u32(&bytes, 0), 0x12345678);
    assert_eq!(read_u32(&bytes, 1), 0x3456789a);
    let mut out = vec![7u8];
    push_u16(&mut out, 0xbeef);
    push_u32(&mut out, 0xdeadc0de);
    push_u16(&mut out, 1);
    assert_eq!(out, vec![7, 0xbe, 0xef, 0xde, 0xad, 0xc0, 0xde, 0, 1]);
}

#[test]
fn counting_bits() {
    assert_eq!(count_ones(0), 0);
    assert_eq!(count_ones(1), 1);
    assert_eq!(count_ones(0b1011), 3);
    assert_eq!(count_ones(0x8000_0000), 1);
    assert_eq!(count_ones(u32::MAX), 32);
    for w in INIT_PELLETS {
        assert_eq!(count_ones(w), w.count_ones());
    }
}

#[test]
fn snapshot_of_a_new_game() {
    let s = GameState::new_with_seed(1);
    let b = s.to_bytes();
    assert_eq!(b.len(), 152);
    assert_eq!(SNAPSHOT_LEN, 152);
    assert_eq!(
        b[..28],
        [
            0, 0, 12, 0, 60, 255, 0, 0, 1, 3, 32, 32, 128, 32, 32, 128, 32, 32, 128, 32, 32, 128,
            215, 13, 17, 13, 0, 30
        ]
    );
    for r in 0..31 {
        assert_eq!(b[28 + 4 * r..32 + 4 * r], INIT_PELLETS[r].to_be_bytes());
    }
}

#[test]
fn snapshot_of_a_running_game() {
    let mut s = GameState::new_with_seed(1);
    s.paused = false;
    s.curr_ticks = 0x0001_0203;
    s.set_update_period(8);
    s.mode = GameMode::CHASE;
    s.set_mode_steps(99);
    s.increment_score(0x1234);
    s.set_level(3);
    s.set_update_period(8);
    s.set_lives(2);
    s.set_fruit_steps(7);
    s.ghosts[0].loc = LocationState::new(5, 6, Direction::Left);
    s.ghosts[0].set_fright_steps(40);
    s.ghosts[0].set_spawning(false);
    s.ghosts[2].loc = LocationState::new(14, 11, Direction::Down);
    s.pacman_loc = LocationState::new(1, 2, Direction::Right);
    let b = s.to_bytes();
    assert_eq!(
        b[..28],
        [
            2,
            3,
            8,
            2,
            99,
            180,
            0x12,
            0x34,
            3,
            2,
            5,
            0xC0 | 6,
            40,
            32,
            32,
            128,
            0x40 | 14,
            11,
            128,
            32,
            32,
            128,
            1,
            0x40 | 2,
            17,
            13,
            7,
            30
        ]
    );
    s.mode = GameMode::SCATTER;
    let b = s.to_bytes();
    assert_eq!(b[3], 1);
    assert_eq!(b[5], 60);
}

fn assert_same_but_planning(decoded: &GameState, s: &GameState, seed: u64) {
    assert_eq!(decoded.curr_ticks, s.curr_ticks % 65536);
    assert_eq!(decoded.update_period, s.update_period);
    assert_eq!(decoded.paused, s.paused);
    if !s.paused {
        assert_eq!(decoded.mode, s.mode);
    } else {
        assert_eq!(decoded.mode, GameMode::CHASE);
    }
    assert_eq!(decoded.mode_steps, s.mode_steps);
    assert_eq!(decoded.level_steps, 0);
    assert_eq!(decoded.curr_score, s.curr_score);
    assert_eq!(decoded.curr_level, s.curr_level);
    assert_eq!(decoded.curr_lives, s.curr_lives);
    assert_eq!(decoded.pacman_loc, s.pacman_loc);
    assert_eq!(decoded.fruit_loc, s.fruit_loc);
    assert_eq!(decoded.fruit_steps, s.fruit_steps);
    assert_eq!(decoded.ghost_combo, 0);
    assert_eq!(decoded.pellets, s.pellets);
    assert_eq!(decoded.num_pellets, s.num_pellets);
    assert_eq!(decoded.walls, INIT_WALLS);
    for i in 0..4 {
        assert_eq!(decoded.ghosts[i].loc, s.ghosts[i].loc);
        assert_eq!(decoded.ghosts[i].fright_steps, s.ghosts[i].fright_steps);
        assert_eq!(decoded.ghosts[i].spawning, s.ghosts[i].spawning);
        assert_eq!(decoded.ghosts[i].color, s.ghosts[i].color);
        assert_eq!(decoded.ghosts[i].scatter_target, s.ghosts[i].scatter_target);
        assert_eq!(decoded.ghosts[i].trapped_steps, 0);
        assert!(!decoded.ghosts[i].eaten);
    }
    let draws = (0..4).any(|i| !s.ghosts[i].loc.is_empty() && s.ghosts[i].fright_steps > 1);
    if !draws {
        assert_eq!(decoded.seed, seed);
    }
}

#[test]
fn round_trip_of_a_new_game() {
    let s = GameState::new_with_seed(1);
    let decoded = GameState::from_bytes(&s.to_bytes(), 77).unwrap();
    assert_same_but_planning(&decoded, &s, 77);
    for i in 0..4 {
        assert_eq!(decoded.ghosts[i].next_loc, empty_loc());
    }
    assert!(decoded.is_wf());
}

fn has_valid_move(s: &GameState, i: usize) -> bool {
    let g = s.ghosts[i];
    let mut next = g.loc;
    next.advance_from(g.loc);
    Direction::all_except_stay().into_iter().any(|dir| {
        let cell = next.get_neighbor_coords(dir);
        dir != g.loc.dir.opposite()
            && ((g.spawning && (s.ghost_spawn_at(cell) || cell == (12, 13))) || !s.wall_at(cell))
    })
}

#[test]
fn round_trip_through_a_game() {
    let mut s = GameState::new_with_seed(1);
    s.paused = false;
    let mut snapshots = 0;
    for tick in 1..=3000u32 {
        if tick == 700 {
            s.frighten_all_ghosts();
            s.collect_pellet((1, 1));
            s.collect_pellet((3, 1));
        }
        assert!(s.can_step());
        s.step();
        if tick % 12 == 0 {
            let readable = (0..4).all(|i| s.ghosts[i].loc.is_empty() || has_valid_move(&s, i));
            let decoded = match GameState::from_bytes(&s.to_bytes(), 77) {
                Ok(decoded) => decoded,
                Err(e) => {
                    assert_eq!(e, DecodeError::NoValidMove);
                    assert!(!readable);
                    continue;
                }
            };
            assert!(readable);
            snapshots += 1;
            assert_same_but_planning(&decoded, &s, 77);
            for i in 0..4 {
                let planned = decoded.ghosts[i].next_loc;
                if s.ghosts[i].loc.is_empty() {
                    assert_eq!(planned, s.ghosts[i].loc);
                } else {
                    let mut ahead = s.ghosts[i].loc;
                    ahead.advance_from(s.ghosts[i].loc);
                    assert_eq!(planned.get_coords(), ahead.get_coords());
                    assert_ne!(planned.dir, s.ghosts[i].loc.dir.opposite());
                }
            }
            assert_eq!(decoded.to_bytes(), s.to_bytes());
        }
        if s.get_lives() == 0 {
            break;
        }
    }
    assert!(snapshots > 50);
}

#[test]
fn round_trip_truncates_the_ticks() {
    let mut s = GameState::new_with_seed(1);
    s.curr_ticks = 0x0012_3456;
    let decoded = GameState::from_bytes(&s.to_bytes(), 0).unwrap();
    assert_eq!(decoded.curr_ticks, 0x3456);
    s.curr_ticks = 0xffff;
    let decoded = GameState::from_bytes(&s.to_bytes(), 0).unwrap();
    assert_eq!(decoded.curr_ticks, 0xffff);
}

#[test]
fn decoding_plans_the_ghosts() {
    let mut s = GameState::new_with_seed(1);
    s.paused = false;
    s.ghosts[0].loc = LocationState::new(11, 13, Direction::Left);
    s.ghosts[0].set_spawning(false);
    s.ghosts[0].set_trapped_steps(3);
    s.ghosts[0].set_eaten(true);
    s.ghost_combo = 2;
    s.set_level_steps(100);
    let decoded = GameState::from_bytes(&s.to_bytes(), 5).unwrap();
    let mut expected = GhostState::from_bytes(
        GhostColor::Red,
        LocationState::new(11, 13, Direction::Left),
        0,
        0,
    );
    expected.next_loc = LocationState::new(11, 12, Direction::Up);
    assert_eq!(decoded.ghosts[0], expected);
    assert_eq!(decoded.ghost_combo, 0);
    assert_eq!(decoded.level_steps, 0);
    assert_eq!(decoded.seed, 5);
}

#[test]
fn truncated_snapshot_is_rejected() {
    let b = GameState::new_with_seed(1).to_bytes();
    for len in [0usize, 1, 3, 4, 9, 10, 27, 28, 100, 151] {
        assert_eq!(GameState::from_bytes(&b[..len], 0), Err(DecodeError::UnexpectedEof));
    }
    assert!(GameState::from_bytes(&b, 0).is_ok());
    let mut longer = b.clone();
    longer.push(9);
    assert_eq!(GameState::from_bytes(&longer, 0), GameState::from_bytes(&b, 0));
}

#[test]
fn unknown_mode_byte_is_rejected() {
    let mut b = GameState::new_with_seed(1).to_bytes();
    for mode in [3u8, 4, 128, 255] {
        b[3] = mode;
        assert_eq!(GameState::from_bytes(&b, 0), Err(DecodeError::InvalidMode));
    }
    b[3] = 0;
    let s = GameState::from_bytes(&b, 0).unwrap();
    assert!(s.paused);
    assert_eq!(s.mode, GameMode::CHASE);
    b[3] = 1;
    let s = GameState::from_bytes(&b, 0).unwrap();
    assert!(!s.paused);
    assert_eq!(s.mode, GameMode::SCATTER);
    b[3] = 2;
    let s = GameState::from_bytes(&b, 0).unwrap();
    assert!(!s.paused);
    assert_eq!(s.mode, GameMode::CHASE);
}

#[test]
fn position_without_direction_is_rejected_in_a_snapshot() {
    let b = GameState::new_with_seed(1).to_bytes();
    for at in [10usize, 13, 16, 19, 22, 24] {
        let mut bad = b.clone();
        bad[at] = 0x80 | 5;
        assert_eq!(GameState::from_bytes(&bad, 0), Err(DecodeError::InvalidDirection));
        let mut bad = b.clone();
        bad[at] = 0x40 | 5;
        bad[at + 1] = 0x40 | 5;
        assert_eq!(GameState::from_bytes(&bad, 0), Err(DecodeError::InvalidDirection));
    }
    let mut bad = b.clone();
    bad[3] = 7;
    bad[10] = 0x80;
    assert_eq!(GameState::from_bytes(&bad, 0), Err(DecodeError::InvalidMode));
}

#[test]
fn snapshot_of_no_valid_state_is_rejected() {
    let b = GameState::new_with_seed(1).to_bytes();
    let mut bad = b.clone();
    bad[2] = 0;
    assert_eq!(GameState::from_bytes(&bad, 0), Err(DecodeError::InvalidState));
    let mut bad = b.clone();
    bad[22] = 33;
    assert_eq!(GameState::from_bytes(&bad, 0), Err(DecodeError::InvalidState));
    let mut bad = b.clone();
    bad[10] = 0x40 | 32;
    bad[11] = 5;
    assert_eq!(GameState::from_bytes(&bad, 0), Err(DecodeError::InvalidState));
    let mut bad = b.clone();
    bad[10] = 40;
    bad[11] = 5;
    assert_eq!(GameState::from_bytes(&bad, 0), Err(DecodeError::InvalidState));
}

#[test]
fn snapshot_with_a_ghost_in_a_dead_end_is_rejected() {
    let mut s = GameState::new_with_seed(1);
    s.ghosts[0].loc = LocationState::new(11, 13, Direction::Down);
    s.ghosts[0].set_spawning(false);
    assert_eq!(GameState::from_bytes(&s.to_bytes(), 0), Err(DecodeError::NoValidMove));
    s.ghosts[0].set_trapped_steps(2);
    assert_eq!(GameState::from_bytes(&s.to_bytes(), 0), Err(DecodeError::NoValidMove));
    s.ghosts[0].set_spawning(true);
    let decoded = GameState::from_bytes(&s.to_bytes(), 0).unwrap();
    assert_eq!(decoded.ghosts[0].next_loc, LocationState::new(12, 13, Direction::Down));
}

#[test]
fn validity_check() {
    let mut s = GameState::new_with_seed(1);
    assert!(s.is_wf());
    s.set_update_period(0);
    assert!(!s.is_wf());
    s.set_update_period(1);
    assert!(s.is_wf());
    s.walls[5] ^= 1;
    assert!(!s.is_wf());
    s.walls[5] ^= 1;
    s.pacman_loc = LocationState::new(33, 0, Direction::Up);
    assert!(!s.is_wf());
    s.pacman_loc = LocationState::new(-1, 0, Direction::Up);
    assert!(!s.is_wf());
    s.pacman_loc = LocationState::new(0, 0, Direction::Up);
    assert!(s.is_wf());
    s.fruit_loc = LocationState::new(64, 0, Direction::Up);
    assert!(!s.is_wf());
    s.fruit_loc = LocationState::new(63, 63, Direction::Up);
    assert!(s.is_wf());
    s.ghosts[1].color = GhostColor::Red;
    assert!(!s.is_wf());
    s.ghosts[1] = GhostState::new(GhostColor::Pink);
    s.ghosts[1].set_fright_steps(64);
    assert!(!s.is_wf());
    s.ghosts[1].set_fright_steps(63);
    assert!(s.is_wf());
    s.ghost_combo = 16;
    assert!(!s.is_wf());
    s.ghost_combo = 15;
    assert!(s.is_wf());
    s.ghosts[1].set_eaten(true);
    s.ghost_combo = 16;
    assert!(s.is_wf());
    s.ghost_combo = 17;
    assert!(!s.is_wf());
    s.ghost_combo = 4;
    s.ghosts[1].set_spawning(false);
    assert!(!s.is_wf());
    s.ghosts[1].set_spawning(true);
    s.ghosts[2].loc = LocationState::new(0, 5, Direction::Up);
    assert!(!s.is_wf());
    s.ghosts[2].loc = LocationState::new(0, 5, Direction::Down);
    assert!(s.is_wf());
    s.ghosts[2].next_loc = LocationState::new(5, 32, Direction::Right);
    assert!(!s.is_wf());
    s.ghosts[2].next_loc = LocationState::new(5, 32, Direction::Left);
    assert!(s.is_wf());
    s.ghosts[3].scatter_target = LocationState::new(31, 1, Direction::Stay);
    assert!(!s.is_wf());
}

#[test]
fn pellet_count_check() {
    let mut s = GameState::new_with_seed(1);
    assert!(s.has_counted_pellets());
    s.num_pellets = 243;
    assert!(s.is_wf());
    assert!(!s.has_counted_pellets());
    s.pellets[1] &= !2;
    assert!(s.has_counted_pellets());
    s.pellets[0] |= 1 << 31;
    assert!(!s.has_counted_pellets());
    s.num_pellets = 244;
    assert!(s.has_counted_pellets());
    s.collect_pellet((1, 2));
    assert!(s.has_counted_pellets());
    assert_eq!(s.get_num_pellets(), 243);
}
