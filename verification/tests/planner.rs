use pacbot_rs::game_modes::GameMode;
use pacbot_rs::game_state::GameState;
use pacbot_rs::ghost_state::GhostColor;
use pacbot_rs::location::{empty_loc, Direction, LocationState};

fn placed(loc: LocationState, color: usize) -> GameState {
    let mut s = GameState::new_with_seed(5);
    s.ghosts[color].loc = loc;
    s.ghosts[color].set_spawning(false);
    s.ghosts[color].set_trapped_steps(0);
    assert!(s.is_wf());
    s
}

#[test]
fn chase_targets() {
    let mut s = GameState::new_with_seed(5);
    s.ghosts[0].loc = LocationState::new(11, 13, Direction::Left);
    s.ghosts[3].loc = LocationState::new(20, 13, Direction::Up);
    assert_eq!(s.get_chase_target(GhostColor::Red), (23, 13));
    assert_eq!(s.get_chase_target(GhostColor::Pink), (19, 13));
    assert_eq!(s.get_chase_target(GhostColor::Cyan), (31, 13));
    assert_eq!(s.get_chase_target(GhostColor::Orange), (23, 13));
    s.pacman_loc = LocationState::new(5, 6, Direction::Left);
    assert_eq!(s.get_chase_target(GhostColor::Red), (5, 6));
    assert_eq!(s.get_chase_target(GhostColor::Pink), (5, 2));
    assert_eq!(s.get_chase_target(GhostColor::Cyan), (-1, -5));
}

#[test]
fn orange_keeps_its_distance() {
    let mut s = GameState::new_with_seed(5);
    s.pacman_loc = LocationState::new(23, 13, Direction::Up);
    s.ghosts[3].loc = LocationState::new(14, 15, Direction::Up);
    assert_eq!(s.get_chase_target(GhostColor::Orange), (31, 0));
    s.ghosts[3].loc = LocationState::new(23, 5, Direction::Up);
    assert_eq!(s.get_chase_target(GhostColor::Orange), (31, 0));
    s.ghosts[3].loc = LocationState::new(23, 6, Direction::Up);
    assert_eq!(s.get_chase_target(GhostColor::Orange), (23, 13));
    s.ghosts[3].loc = LocationState::new(23, 13, Direction::Up);
    assert_eq!(s.get_chase_target(GhostColor::Orange), (23, 13));
}

#[test]
fn unplaced_ghost_is_not_planned() {
    let mut s = GameState::new_with_seed(5);
    let before = s;
    assert!(s.can_plan());
    s.plan_all_ghosts();
    assert_eq!(s, before);
}

#[test]
fn scatter_plan_heads_for_the_corner() {
    let mut s = placed(LocationState::new(11, 13, Direction::Left), 0);
    assert!(s.can_plan());
    s.plan_all_ghosts();
    assert_eq!(s.ghosts[0].next_loc, LocationState::new(11, 12, Direction::Up));
    assert_eq!(s.ghosts[0].loc, LocationState::new(11, 13, Direction::Left));
    assert_eq!(s.seed, 5);
}

#[test]
fn chase_plan_heads_for_pacman() {
    let mut s = placed(LocationState::new(11, 13, Direction::Left), 0);
    s.mode = GameMode::CHASE;
    s.plan_all_ghosts();
    assert_eq!(s.ghosts[0].next_loc, LocationState::new(11, 12, Direction::Left));
}

#[test]
fn ties_go_to_the_first_direction() {
    let mut s = placed(LocationState::new(1, 5, Direction::Right), 0);
    s.mode = GameMode::CHASE;
    s.pacman_loc = LocationState::new(5, 10, Direction::Up);
    s.plan_all_ghosts();
    assert_eq!(s.ghosts[0].next_loc, LocationState::new(1, 6, Direction::Down));
    s.pacman_loc = LocationState::new(5, 11, Direction::Up);
    s.plan_all_ghosts();
    assert_eq!(s.ghosts[0].next_loc, LocationState::new(1, 6, Direction::Right));
    s.pacman_loc = LocationState::new(6, 10, Direction::Up);
    s.plan_all_ghosts();
    assert_eq!(s.ghosts[0].next_loc, LocationState::new(1, 6, Direction::Down));
}

#[test]
fn trapped_ghost_turns_around() {
    let mut s = placed(LocationState::new(13, 13, Direction::Down), 1);
    s.ghosts[1].set_spawning(true);
    s.ghosts[1].set_trapped_steps(5);
    s.plan_all_ghosts();
    assert_eq!(s.ghosts[1].next_loc, LocationState::new(14, 13, Direction::Up));
    assert_eq!(s.ghosts[1].trapped_steps, 4);
    s.update_all_ghosts();
    s.plan_all_ghosts();
    assert_eq!(s.ghosts[1].next_loc, LocationState::new(13, 13, Direction::Down));
    assert_eq!(s.ghosts[1].trapped_steps, 3);
}

#[test]
fn spawning_ghost_leaves_through_the_exit() {
    let mut s = placed(LocationState::new(14, 13, Direction::Up), 1);
    s.ghosts[1].set_spawning(true);
    s.plan_all_ghosts();
    assert_eq!(s.ghosts[1].next_loc, LocationState::new(13, 13, Direction::Up));
    s.update_all_ghosts();
    s.plan_all_ghosts();
    assert_eq!(s.ghosts[1].next_loc, LocationState::new(12, 13, Direction::Up));
    s.update_all_ghosts();
    s.plan_all_ghosts();
    assert_eq!(s.ghosts[1].next_loc.get_coords(), (11, 13));
    assert!(s.ghosts[1].is_spawning());
    s.update_all_ghosts();
    s.update_all_ghosts();
    assert!(!s.ghosts[1].is_spawning());
}

#[test]
fn ghost_in_a_dead_end_cannot_plan() {
    let mut s = placed(LocationState::new(11, 13, Direction::Down), 0);
    assert!(!s.can_plan());
    s.ghosts[0].set_spawning(true);
    assert!(s.can_plan());
    s.ghosts[0].set_spawning(false);
    s.ghosts[0].set_trapped_steps(1);
    assert!(s.can_plan());
    s.ghosts[0].set_trapped_steps(0);
    s.ghosts[0].loc = empty_loc();
    assert!(s.can_plan());
}

fn valid_from(s: &GameState, i: usize, dir: Direction) -> bool {
    let g = s.ghosts[i];
    let mut next = g.loc;
    next.advance_from(g.loc);
    if dir == Direction::Stay || dir == g.loc.dir.opposite() {
        return false;
    }
    let cell = next.get_neighbor_coords(dir);
    (g.spawning && (s.ghost_spawn_at(cell) || cell == (12, 13))) || !s.wall_at(cell)
}

#[test]
fn frightened_ghost_draws_a_valid_direction() {
    for seed in 0..50u64 {
        let mut s = placed(LocationState::new(5, 5, Direction::Right), 0);
        s.seed = seed;
        s.ghosts[0].set_fright_steps(40);
        let before = s;
        s.plan_all_ghosts();
        let chosen = s.ghosts[0].next_loc;
        assert_eq!(chosen.get_coords(), (5, 6));
        assert!(valid_from(&before, 0, chosen.dir));
        assert!(
            chosen.dir == Direction::Up || chosen.dir == Direction::Down
                || chosen.dir == Direction::Right
        );
        assert_ne!(s.seed, seed);
        let mut again = before;
        again.plan_all_ghosts();
        assert_eq!(again, s);
    }
}

#[test]
fn frightened_ghost_draws_every_valid_direction() {
    let mut seen = [false; 4];
    for seed in 0..200u64 {
        let mut s = placed(LocationState::new(5, 5, Direction::Right), 0);
        s.seed = seed;
        s.ghosts[0].set_fright_steps(2);
        s.plan_all_ghosts();
        seen[s.ghosts[0].next_loc.dir.index() as usize] = true;
    }
    assert_eq!(seen, [true, false, true, true]);
}

#[test]
fn ghost_on_its_last_frightened_step_plans_as_usual() {
    let mut s = placed(LocationState::new(11, 13, Direction::Left), 0);
    s.ghosts[0].set_fright_steps(1);
    s.plan_all_ghosts();
    assert_eq!(s.ghosts[0].next_loc, LocationState::new(11, 12, Direction::Up));
    assert_eq!(s.seed, 5);
}

#[test]
fn planned_direction_is_never_the_reverse() {
    let mut s = GameState::new_with_seed(11);
    s.paused = false;
    for tick in 0..6000u32 {
        if tick == 1500 || tick == 3000 {
            s.frighten_all_ghosts();
        }
        assert!(s.can_step());
        let ahead = {
            let mut a = s;
            a.next_tick();
            if a.update_ready() {
                a.update_all_ghosts();
                a.try_respawn_pacman();
                a.check_collisions();
                a.handle_step_events();
            }
            a
        };
        s.step();
        if ahead.update_ready() {
            for i in 0..4 {
                let g = ahead.ghosts[i];
                if !g.loc.is_empty() && !g.is_trapped() {
                    let chosen = s.ghosts[i].next_loc.dir;
                    assert_ne!(chosen, g.loc.dir.opposite());
                    assert_ne!(chosen, Direction::Stay);
                    assert!(valid_from(&ahead, i, chosen));
                } else if !g.loc.is_empty() {
                    assert_eq!(s.ghosts[i].next_loc.dir, g.loc.dir.opposite());
                }
            }
        }
        if s.get_lives() == 0 {
            break;
        }
    }
}

#[test]
fn frightened_ghost_takes_the_direction_that_was_drawn() {
    let mut s = placed(LocationState::new(5, 5, Direction::Right), 0);
    s.ghosts[0].set_fright_steps(40);
    let before = s;
    for dir in [Direction::Up, Direction::Down, Direction::Right] {
        let mut s = before;
        s.plan_ghost(0, Some(dir));
        let mut expected = before;
        expected.ghosts[0].next_loc = LocationState::new(5, 6, dir);
        assert_eq!(s, expected);
    }
}

#[test]
fn ghost_that_does_not_draw_ignores_what_was_drawn() {
    let before = placed(LocationState::new(11, 13, Direction::Left), 0);
    for drawn in [None, Some(Direction::Left), Some(Direction::Right), Some(Direction::Stay)] {
        let mut s = before;
        s.plan_ghost(0, drawn);
        let mut expected = before;
        expected.ghosts[0].next_loc = LocationState::new(11, 12, Direction::Up);
        assert_eq!(s, expected);
    }
    let mut s = before;
    s.ghosts[0].set_trapped_steps(2);
    s.ghosts[0].set_fright_steps(40);
    let mut expected = s;
    s.plan_ghost(0, None);
    expected.ghosts[0].next_loc = LocationState::new(11, 12, Direction::Right);
    expected.ghosts[0].set_trapped_steps(1);
    assert_eq!(s, expected);
    let mut s = before;
    let unplaced = s;
    s.plan_ghost(1, Some(Direction::Up));
    assert_eq!(s, unplaced);
}
