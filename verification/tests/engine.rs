use pacbot_rs::game_engine::GameEngine;
use pacbot_rs::game_state::GameState;
use pacbot_rs::location::{Direction, LocationState};
use pacbot_rs::wire::DecodeError;

#[test]
fn new_engine_is_paused() {
    let mut e = GameEngine::new(4);
    assert!(e.is_paused());
    assert_eq!(*e.get_state(), GameState::new_with_seed(4));
    e.unpause();
    assert!(!e.is_paused());
    e.pause();
    assert!(e.is_paused());
    assert_eq!(*e.get_state(), GameState::new_with_seed(4));
}

#[test]
fn engine_step_counts_every_tick() {
    let mut e = GameEngine::new(4);
    for tick in 1..=11u32 {
        assert!(e.can_step());
        e.step();
        let mut expected = GameState::new_with_seed(4);
        expected.curr_ticks = tick;
        assert_eq!(*e.get_state(), expected);
        assert!(e.is_paused());
    }
    assert!(e.can_step());
    e.step();
    assert_eq!(e.get_state().curr_ticks, 12);
    assert_eq!(e.get_state().ghosts[0].loc, LocationState::new(11, 13, Direction::Left));
    assert_eq!(e.get_state().ghosts[0].next_loc, LocationState::new(11, 12, Direction::Up));
    assert_eq!(e.get_state().get_mode_steps(), 59);
    e.step();
    assert_eq!(e.get_state().curr_ticks, 13);
    assert_eq!(e.get_state().get_mode_steps(), 59);
}

#[test]
fn engine_step_is_the_step_of_its_state() {
    let mut e = GameEngine::new(1);
    e.unpause();
    let mut s = GameState::new_with_seed(1);
    for _ in 0..1000 {
        let lives = s.get_lives();
        assert!(e.can_step());
        e.step();
        s.step();
        assert_eq!(*e.get_state(), s);
        if s.get_lives() < lives {
            assert!(e.is_paused());
            e.unpause();
        } else {
            assert!(!e.is_paused());
        }
    }
    assert_eq!(s.get_lives(), 2);
}

#[test]
fn engine_step_cannot_be_taken_at_the_last_tick() {
    let mut e = GameEngine::new(4);
    e.state_mut().curr_ticks = u32::MAX;
    assert!(!e.can_step());
}

#[test]
fn engine_force_step_ignores_the_period() {
    let mut e = GameEngine::new(4);
    for n in 1..=5u32 {
        assert!(e.can_force_step());
        e.force_step();
        assert_eq!(e.get_state().curr_ticks, n);
        assert_eq!(e.get_state().get_mode_steps(), 60 - n as u8);
    }
    assert_eq!(e.get_state().ghosts[0].loc.get_coords(), (8, 12));
}

#[test]
fn engine_pauses_when_a_life_is_lost() {
    let mut e = GameEngine::new(4);
    e.unpause();
    e.state_mut().pacman_loc = LocationState::new(11, 13, Direction::Left);
    assert!(e.can_force_step());
    e.force_step();
    assert!(e.is_paused());
    assert_eq!(e.get_state().get_lives(), 2);
}

#[test]
fn engine_state_can_be_changed_in_place() {
    let mut e = GameEngine::new(4);
    e.state_mut().increment_score(30);
    e.state_mut().set_lives(1);
    assert_eq!(e.get_state().get_score(), 30);
    assert_eq!(e.get_state().get_lives(), 1);
    assert!(e.is_paused());
}

#[test]
fn engine_places_pacman() {
    let mut e = GameEngine::new(4);
    e.set_pacman_location(LocationState::new(1, 1, Direction::Right));
    assert_eq!(e.get_state().pacman_loc, LocationState::new(1, 1, Direction::Right));
    assert_eq!(e.get_state().get_score(), 0);
    e.unpause();
    e.set_pacman_location(LocationState::new(1, 2, Direction::Right));
    assert_eq!(e.get_state().pacman_loc, LocationState::new(1, 2, Direction::Right));
    assert_eq!(e.get_state().get_score(), 10);
    assert_eq!(e.get_state().get_num_pellets(), 243);
    e.state_mut().ghosts[2].loc = LocationState::new(1, 3, Direction::Left);
    e.set_pacman_location(LocationState::new(1, 3, Direction::Right));
    assert_eq!(e.get_state().get_score(), 20);
    assert_eq!(e.get_state().get_lives(), 2);
    assert!(!e.is_paused());
}

#[test]
fn engine_takes_over_a_snapshot() {
    let mut source = GameState::new_with_seed(1);
    source.paused = false;
    source.increment_score(70);
    let mut e = GameEngine::new(4);
    assert_eq!(e.update(&source.to_bytes()), Ok(()));
    assert!(!e.is_paused());
    assert_eq!(e.get_state().get_score(), 70);
    assert_eq!(e.get_state().seed, 4);
    let before = *e.get_state();
    assert_eq!(e.update(&source.to_bytes()[..100]), Err(DecodeError::UnexpectedEof));
    assert_eq!(*e.get_state(), before);
    assert!(!e.is_paused());
    source.paused = true;
    assert_eq!(e.update(&source.to_bytes()), Ok(()));
    assert!(e.is_paused());
}

#[test]
fn engine_places_pacman_within_the_combo() {
    let mut e = GameEngine::new(4);
    e.unpause();
    e.state_mut().ghost_combo = 15;
    e.state_mut().ghosts[0].loc = LocationState::new(1, 3, Direction::Left);
    e.state_mut().ghosts[0].set_fright_steps(9);
    e.state_mut().ghosts[1].loc = LocationState::new(1, 3, Direction::Left);
    e.state_mut().ghosts[1].set_fright_steps(9);
    assert!(!e.can_set_pacman_location(LocationState::new(1, 3, Direction::Right)));
    assert!(e.can_set_pacman_location(LocationState::new(1, 4, Direction::Right)));
    assert!(e.can_set_pacman_location(LocationState::new(3, 1, Direction::Right)));
    e.pause();
    assert!(e.can_set_pacman_location(LocationState::new(1, 3, Direction::Right)));
    e.unpause();
    e.state_mut().ghost_combo = 14;
    assert!(e.can_set_pacman_location(LocationState::new(1, 3, Direction::Right)));
    e.set_pacman_location(LocationState::new(1, 3, Direction::Right));
    assert_eq!(e.get_state().ghost_combo, 16);
    assert_eq!(e.get_state().get_score(), 10);
}
