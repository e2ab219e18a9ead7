use pacbot_rs::game_modes::GameMode;
use pacbot_rs::game_state::{sped_up, GameState};
use pacbot_rs::ghost_state::{GhostColor, GhostState};
use pacbot_rs::location::{empty_loc, Direction, LocationState};
use pacbot_rs::maze::{get_bit_u32, modify_bit_u32};
use pacbot_rs::variables::{INIT_PELLETS, INIT_WALLS};

#[test]
fn bit_operations() {
    assert!(get_bit_u32(0b100, 2));
    assert!(!get_bit_u32(0b100, 1));
    assert!(get_bit_u32(0x8000_0000, 31));
    let mut w: u32 = 0b1010;
    modify_bit_u32(&mut w, 0, true);
    assert_eq!(w, 0b1011);
    modify_bit_u32(&mut w, 3, false);
    assert_eq!(w, 0b0011);
    modify_bit_u32(&mut w, 3, false);
    assert_eq!(w, 0b0011);
    modify_bit_u32(&mut w, 31, true);
    assert_eq!(w, 0x8000_0003);
}

#[test]
fn new_game_state() {
    let s = GameState::new_with_seed(42);
    assert_eq!(s.curr_ticks, 0);
    assert_eq!(s.get_update_period(), 12);
    assert_eq!(s.mode, GameMode::SCATTER);
    assert!(s.paused);
    assert_eq!(s.get_mode_steps(), 60);
    assert_eq!(s.get_level_steps(), 960);
    assert_eq!(s.get_score(), 0);
    assert_eq!(s.get_level(), 1);
    assert_eq!(s.get_lives(), 3);
    assert_eq!(s.pacman_loc, LocationState::new(23, 13, Direction::Up));
    assert_eq!(s.fruit_loc, LocationState::new(17, 13, Direction::Stay));
    assert_eq!(s.get_fruit_steps(), 0);
    assert!(!s.fruit_exists());
    assert_eq!(
        s.ghosts,
        [
            GhostState::new(GhostColor::Red),
            GhostState::new(GhostColor::Pink),
            GhostState::new(GhostColor::Cyan),
            GhostState::new(GhostColor::Orange)
        ]
    );
    assert_eq!(s.ghost_combo, 0);
    assert_eq!(s.pellets, INIT_PELLETS);
    assert_eq!(s.get_num_pellets(), 244);
    assert_eq!(s.walls, INIT_WALLS);
    assert_eq!(s.seed, 42);
    assert!(s.is_wf());
}

#[test]
fn a_full_board_has_244_pellets() {
    let s = GameState::new_with_seed(0);
    let mut n = 0;
    for row in 0..31i8 {
        for col in 0..28i8 {
            if s.pellet_at((row, col)) {
                n += 1;
                assert!(!s.wall_at((row, col)));
            }
        }
    }
    assert_eq!(n, 244);
}

#[test]
fn maze_queries_off_the_board() {
    let s = GameState::new_with_seed(0);
    assert!(s.in_bounds((0, 0)));
    assert!(s.in_bounds((30, 27)));
    assert!(!s.in_bounds((31, 0)));
    assert!(!s.in_bounds((0, 28)));
    assert!(!s.in_bounds((-1, 5)));
    assert!(!s.in_bounds((5, -1)));
    assert!(s.wall_at((-1, 5)));
    assert!(s.wall_at((31, 5)));
    assert!(s.wall_at((5, 28)));
    assert!(s.wall_at((32, 32)));
    assert!(!s.pellet_at((-1, 5)));
    assert!(!s.pellet_at((31, 5)));
    assert!(!s.pellet_at((5, 28)));
    assert!(s.wall_at((0, 0)));
    assert!(!s.wall_at((1, 1)));
    assert!(s.pellet_at((1, 1)));
    assert!(s.wall_at((2, 2)));
    assert!(!s.wall_at((11, 13)));
    assert!(!s.pellet_at((11, 13)));
    assert!(s.wall_at((12, 13)));
    assert!(s.wall_at((13, 13)));
}

#[test]
fn ghost_house_is_a_rectangle() {
    let s = GameState::new_with_seed(0);
    for row in -2..40i8 {
        for col in -2..40i8 {
            let inside = (13..=14).contains(&row) && (11..=15).contains(&col);
            assert_eq!(s.ghost_spawn_at((row, col)), inside);
        }
    }
}

#[test]
fn plain_pellet_is_worth_ten() {
    let mut s = GameState::new_with_seed(0);
    s.collect_pellet((1, 1));
    assert_eq!(s.get_score(), 10);
    assert_eq!(s.get_num_pellets(), 243);
    assert!(!s.pellet_at((1, 1)));
    assert!(s.pellet_at((1, 2)));
    assert_eq!(s.pellets[1], INIT_PELLETS[1] & !(1 << 1));
    for g in s.ghosts {
        assert_eq!(g.fright_steps, 0);
    }
}

#[test]
fn collecting_an_empty_cell_twice_changes_nothing() {
    let mut s = GameState::new_with_seed(0);
    s.collect_pellet((1, 1));
    let once = s;
    s.collect_pellet((1, 1));
    assert_eq!(s, once);
    s.collect_pellet((1, 1));
    assert_eq!(s, once);
    s.collect_pellet((0, 0));
    assert_eq!(s, once);
    s.collect_pellet((-5, 40));
    assert_eq!(s, once);
}

#[test]
fn fruit_is_collected_before_the_pellet_is_looked_at() {
    let mut s = GameState::new_with_seed(0);
    s.set_fruit_steps(12);
    s.pacman_loc = LocationState::new(17, 13, Direction::Left);
    s.collect_pellet((17, 13));
    assert_eq!(s.get_score(), 100);
    assert_eq!(s.get_fruit_steps(), 0);
    assert_eq!(s.get_num_pellets(), 244);
    let once = s;
    s.collect_pellet((17, 13));
    assert_eq!(s, once);
}

#[test]
fn fruit_elsewhere_is_left_alone() {
    let mut s = GameState::new_with_seed(0);
    s.set_fruit_steps(12);
    s.collect_pellet((1, 1));
    assert_eq!(s.get_score(), 10);
    assert_eq!(s.get_fruit_steps(), 12);
}

#[test]
fn super_pellet_frightens_every_ghost() {
    let mut s = GameState::new_with_seed(0);
    s.ghost_combo = 3;
    s.ghosts[0].set_trapped_steps(0);
    s.ghosts[1].set_eaten(true);
    s.ghosts[1].set_fright_steps(0);
    s.ghosts[2].set_fright_steps(7);
    s.ghosts[2].set_spawning(false);
    s.ghosts[3].set_fright_steps(0);
    s.ghost_combo = 1;
    s.collect_pellet((3, 1));
    assert_eq!(s.get_score(), 50);
    assert_eq!(s.get_num_pellets(), 243);
    assert_eq!(s.ghost_combo, 0);
    for g in s.ghosts {
        assert_eq!(g.fright_steps, 40);
        assert!(g.is_trapped());
    }
    assert_eq!(s.ghosts[0].trapped_steps, 1);
    assert_eq!(s.ghosts[1].trapped_steps, 5);
    assert_eq!(s.ghosts[2].trapped_steps, 16);
    assert_eq!(s.ghosts[3].trapped_steps, 32);
}

#[test]
fn every_super_pellet_frightens() {
    for pos in [(3i8, 1i8), (3, 26), (23, 1), (23, 26)] {
        let mut s = GameState::new_with_seed(0);
        s.collect_pellet(pos);
        assert_eq!(s.get_score(), 50);
        for g in s.ghosts {
            assert_eq!(g.fright_steps, 40);
        }
    }
}

fn collect_in_row_order(s: &mut GameState, count: usize) {
    let mut taken = 0;
    for row in 0..31i8 {
        for col in 0..28i8 {
            if taken < count && (INIT_PELLETS[row as usize] >> col) & 1 == 1 {
                s.collect_pellet((row, col));
                taken += 1;
            }
        }
    }
    assert_eq!(taken, count);
}

#[test]
fn fruit_appears_at_174_and_74_pellets() {
    let mut s = GameState::new_with_seed(3);
    collect_in_row_order(&mut s, 69);
    assert_eq!(s.get_num_pellets(), 175);
    assert!(!s.fruit_exists());
    s.collect_pellet((6, 6));
    assert_eq!(s.get_num_pellets(), 174);
    assert_eq!(s.get_fruit_steps(), 30);
    assert_eq!(s.get_score(), 780);
    let mut s = GameState::new_with_seed(3);
    collect_in_row_order(&mut s, 169);
    s.set_fruit_steps(0);
    s.collect_pellet((23, 16));
    assert_eq!(s.get_num_pellets(), 74);
    assert_eq!(s.get_fruit_steps(), 30);
    assert_eq!(s.get_score(), 1820);
}

#[test]
fn fruit_that_exists_is_not_restarted() {
    let mut s = GameState::new_with_seed(3);
    collect_in_row_order(&mut s, 69);
    s.set_fruit_steps(5);
    s.collect_pellet((6, 6));
    assert_eq!(s.get_num_pellets(), 174);
    assert_eq!(s.get_fruit_steps(), 5);
}

#[test]
fn anger_threshold_forces_chase_and_speeds_up() {
    let mut s = GameState::new_with_seed(3);
    collect_in_row_order(&mut s, 223);
    assert_eq!(s.get_num_pellets(), 21);
    assert_eq!(s.mode, GameMode::SCATTER);
    assert_eq!(s.get_update_period(), 12);
    s.set_mode_steps(7);
    s.collect_pellet((29, 6));
    assert_eq!(s.get_num_pellets(), 20);
    assert_eq!(s.mode, GameMode::CHASE);
    assert_eq!(s.get_mode_steps(), 180);
    assert_eq!(s.get_update_period(), 10);
    assert_eq!(s.get_score(), 2400);
    collect_in_row_order_from(&mut s, 9);
    assert_eq!(s.get_num_pellets(), 11);
    assert_eq!(s.get_update_period(), 10);
    s.mode = GameMode::SCATTER;
    s.collect_pellet((29, 16));
    assert_eq!(s.get_num_pellets(), 10);
    assert_eq!(s.mode, GameMode::CHASE);
    assert_eq!(s.get_mode_steps(), 180);
    assert_eq!(s.get_update_period(), 8);
    assert_eq!(s.get_score(), 2500);
}

fn collect_in_row_order_from(s: &mut GameState, count: usize) {
    let mut taken = 0;
    for row in 0..31i8 {
        for col in 0..28i8 {
            if taken < count && s.pellet_at((row, col)) {
                s.collect_pellet((row, col));
                taken += 1;
            }
        }
    }
    assert_eq!(taken, count);
}

#[test]
fn anger_speed_up_stops_at_one() {
    let mut s = GameState::new_with_seed(3);
    collect_in_row_order(&mut s, 223);
    s.set_update_period(2);
    s.collect_pellet((29, 6));
    assert_eq!(s.get_update_period(), 1);
    assert_eq!(sped_up(1), 1);
    assert_eq!(sped_up(2), 1);
    assert_eq!(sped_up(3), 1);
    assert_eq!(sped_up(4), 2);
    assert_eq!(sped_up(12), 10);
    assert_eq!(sped_up(255), 253);
}

#[test]
fn collecting_all_pellets_starts_the_next_level() {
    let mut s = GameState::new_with_seed(3);
    s.paused = false;
    collect_in_row_order(&mut s, 243);
    assert_eq!(s.get_num_pellets(), 1);
    assert_eq!(s.get_score(), 2590);
    assert_eq!(s.mode, GameMode::CHASE);
    assert_eq!(s.get_update_period(), 8);
    assert_eq!(s.get_level(), 1);
    s.set_level_steps(5);
    s.ghosts[0].loc = LocationState::new(5, 6, Direction::Left);
    s.collect_pellet((29, 26));
    assert_eq!(s.get_num_pellets(), 244);
    assert_eq!(s.pellets, INIT_PELLETS);
    assert_eq!(s.get_score(), 2600);
    assert_eq!(s.get_level(), 2);
    assert_eq!(s.get_update_period(), 10);
    assert_eq!(s.mode, GameMode::SCATTER);
    assert_eq!(s.get_mode_steps(), 60);
    assert_eq!(s.get_level_steps(), 960);
    assert_eq!(s.get_fruit_steps(), 0);
    assert_eq!(s.pacman_loc, empty_loc());
    assert_eq!(s.get_lives(), 3);
    assert_eq!(s.ghost_combo, 0);
    assert_eq!(
        s.ghosts,
        [
            GhostState::new(GhostColor::Red),
            GhostState::new(GhostColor::Pink),
            GhostState::new(GhostColor::Cyan),
            GhostState::new(GhostColor::Orange)
        ]
    );
    assert!(s.is_wf());
}

#[test]
fn level_and_update_period() {
    let mut s = GameState::new_with_seed(0);
    s.set_level(3);
    assert_eq!(s.get_level(), 3);
    assert_eq!(s.get_update_period(), 8);
    s.set_level(6);
    assert_eq!(s.get_update_period(), 2);
    s.set_level(7);
    assert_eq!(s.get_update_period(), 1);
    s.set_level(200);
    assert_eq!(s.get_update_period(), 1);
    s.set_level(0);
    assert_eq!(s.get_update_period(), 14);
    s.set_level(254);
    s.increment_level();
    assert_eq!(s.get_level(), 255);
    s.set_update_period(9);
    s.increment_level();
    assert_eq!(s.get_level(), 255);
    assert_eq!(s.get_update_period(), 9);
}

#[test]
fn counters_stop_at_their_ends() {
    let mut s = GameState::new_with_seed(0);
    s.increment_score(65000);
    s.increment_score(500);
    assert_eq!(s.get_score(), 65500);
    s.increment_score(36);
    assert_eq!(s.get_score(), 65535);
    s.set_lives(1);
    s.decrement_lives();
    assert_eq!(s.get_lives(), 0);
    s.decrement_lives();
    assert_eq!(s.get_lives(), 0);
    s.set_mode_steps(1);
    s.decrement_mode_steps();
    s.decrement_mode_steps();
    assert_eq!(s.get_mode_steps(), 0);
    s.set_level_steps(1);
    s.decrement_level_steps();
    s.decrement_level_steps();
    assert_eq!(s.get_level_steps(), 0);
    s.set_fruit_steps(1);
    s.decrement_fruit_steps();
    s.decrement_fruit_steps();
    assert_eq!(s.get_fruit_steps(), 0);
    s.num_pellets = 1;
    s.decrement_num_pellets();
    s.decrement_num_pellets();
    assert_eq!(s.get_num_pellets(), 0);
    s.reset_pellets();
    assert_eq!(s.get_num_pellets(), 244);
    assert_eq!(s.pellets, INIT_PELLETS);
}

#[test]
fn anger_threshold_on_a_counter_set_by_hand() {
    let mut s = GameState::new_with_seed(0);
    s.num_pellets = 21;
    s.update_period = 2;
    s.collect_pellet((1, 1));
    assert_eq!(s.mode, GameMode::CHASE);
    assert_eq!(s.get_mode_steps(), 180);
    assert_eq!(s.get_update_period(), 1);
    assert_eq!(s.get_num_pellets(), 20);
    assert_eq!(s.get_score(), 10);
    let mut s = GameState::new_with_seed(0);
    s.num_pellets = 1;
    s.set_level(9);
    s.collect_pellet((1, 1));
    assert_eq!(s.get_num_pellets(), 244);
    assert_eq!(s.pellets, INIT_PELLETS);
    assert_eq!(s.get_level(), 10);
    assert!(s.has_counted_pellets());
    let mut s = GameState::new_with_seed(0);
    s.num_pellets = 0;
    s.collect_pellet((1, 1));
    assert_eq!(s.get_num_pellets(), 244);
    assert_eq!(s.get_level(), 2);
    assert_eq!(s.get_score(), 10);
}
