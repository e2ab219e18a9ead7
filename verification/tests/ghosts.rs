use pacbot_rs::ghost_state::{GhostColor, GhostState, GHOST_NAMES};
use pacbot_rs::location::{empty_loc, Direction, LocationState};
use pacbot_rs::variables::{ghost_scatter_target, ghost_spawn_loc, ghost_trapped_steps};

#[test]
fn ghost_color_index_round_trip() {
    assert_eq!(GhostColor::try_from(0u8), Ok(GhostColor::Red));
    assert_eq!(GhostColor::try_from(1u8), Ok(GhostColor::Pink));
    assert_eq!(GhostColor::try_from(2u8), Ok(GhostColor::Cyan));
    assert_eq!(GhostColor::try_from(3u8), Ok(GhostColor::Orange));
    assert_eq!(GhostColor::try_from(4u8), Err(()));
    for (i, color) in GHOST_NAMES.iter().enumerate() {
        assert_eq!(color.index(), i);
        assert_eq!(GhostColor::at(i), *color);
        assert_eq!(GhostColor::from_u8(i as u8), Some(*color));
    }
}

#[test]
fn new_ghost_waits_to_spawn() {
    let trapped = [0u8, 5, 16, 32];
    let spawn = [
        LocationState::new(11, 13, Direction::Left),
        LocationState::new(13, 13, Direction::Down),
        LocationState::new(14, 11, Direction::Up),
        LocationState::new(14, 15, Direction::Up),
    ];
    let scatter = [(-3i8, 25i8), (-3, 2), (31, 27), (31, 0)];
    for (i, color) in GHOST_NAMES.iter().enumerate() {
        let g = GhostState::new(*color);
        assert_eq!(g.loc, empty_loc());
        assert_eq!(g.next_loc, spawn[i]);
        assert_eq!(g.next_loc, ghost_spawn_loc(*color));
        assert_eq!(g.scatter_target.get_coords(), scatter[i]);
        assert_eq!(g.scatter_target, ghost_scatter_target(*color));
        assert_eq!(g.color, *color);
        assert_eq!(g.trapped_steps, trapped[i]);
        assert_eq!(g.trapped_steps, ghost_trapped_steps(*color));
        assert_eq!(g.fright_steps, 0);
        assert!(g.is_spawning());
        assert!(!g.is_eaten());
        assert!(!g.is_frightened());
        assert_eq!(g.is_trapped(), trapped[i] > 0);
    }
}

#[test]
fn aux_bytes() {
    let mut g = GhostState::new(GhostColor::Pink);
    assert_eq!(g.get_aux(), 0x80);
    assert_eq!(g.get_aux2(), 5);
    g.set_fright_steps(40);
    g.set_spawning(false);
    g.set_eaten(true);
    g.set_trapped_steps(63);
    assert_eq!(g.get_aux(), 40);
    assert_eq!(g.get_aux2(), 0x80 | 63);
    g.set_fright_steps(70);
    assert_eq!(g.get_aux(), 6);
    g.update_aux(0x80 | 17);
    assert_eq!(g.fright_steps, 17);
    assert!(g.spawning);
    g.update_aux(0x40 | 3);
    assert_eq!(g.fright_steps, 3);
    assert!(!g.spawning);
    g.update_aux2(0x80 | 9);
    assert_eq!(g.trapped_steps, 9);
    assert!(g.eaten);
    g.update_aux2(2);
    assert_eq!(g.trapped_steps, 2);
    assert!(!g.eaten);
}

#[test]
fn ghost_from_bytes() {
    let loc = LocationState::new(5, 6, Direction::Right);
    let g = GhostState::from_bytes(GhostColor::Cyan, loc, 0x80 | 12, 0x80 | 3);
    assert_eq!(g.loc, loc);
    assert_eq!(g.next_loc, loc);
    assert_eq!(g.scatter_target, ghost_scatter_target(GhostColor::Cyan));
    assert_eq!(g.color, GhostColor::Cyan);
    assert_eq!(g.fright_steps, 12);
    assert_eq!(g.trapped_steps, 3);
    assert!(g.spawning);
    assert!(g.eaten);
}

#[test]
fn counters_count_down() {
    let mut g = GhostState::new(GhostColor::Orange);
    g.dec_trapped_steps();
    assert_eq!(g.trapped_steps, 31);
    g.set_fright_steps(2);
    g.dec_fright_steps();
    assert_eq!(g.fright_steps, 1);
    assert!(g.is_frightened());
    g.dec_fright_steps();
    assert!(!g.is_frightened());
}

#[test]
fn reset_sends_ghost_to_its_spawn_cell() {
    let mut g = GhostState::new(GhostColor::Cyan);
    g.loc = LocationState::new(5, 6, Direction::Right);
    g.next_loc = LocationState::new(5, 7, Direction::Right);
    g.set_fright_steps(12);
    g.set_eaten(true);
    g.set_spawning(false);
    g.set_trapped_steps(0);
    g.reset();
    assert_eq!(g, GhostState::new(GhostColor::Cyan));
}

#[test]
fn respawn_sends_red_to_pinks_cell() {
    let mut red = GhostState::new(GhostColor::Red);
    red.loc = LocationState::new(5, 6, Direction::Right);
    red.set_fright_steps(12);
    red.set_spawning(false);
    red.respawn();
    assert_eq!(red.loc, empty_loc());
    assert_eq!(red.next_loc, LocationState::new(13, 13, Direction::Up));
    assert!(red.spawning);
    assert!(red.eaten);
    assert_eq!(red.fright_steps, 12);
    let mut orange = GhostState::new(GhostColor::Orange);
    orange.respawn();
    assert_eq!(orange.next_loc, LocationState::new(14, 15, Direction::Up));
    let mut cyan = GhostState::new(GhostColor::Cyan);
    cyan.respawn();
    assert_eq!(cyan.next_loc, LocationState::new(14, 11, Direction::Up));
}

#[test]
fn update_moves_and_counts_down() {
    let mut g = GhostState::new(GhostColor::Red);
    g.loc = LocationState::new(5, 6, Direction::Right);
    g.next_loc = LocationState::new(5, 7, Direction::Up);
    g.set_fright_steps(3);
    g.update();
    assert_eq!(g.loc, LocationState::new(5, 7, Direction::Up));
    assert_eq!(g.fright_steps, 2);
    assert!(g.spawning);
    g.set_eaten(true);
    g.update();
    assert!(!g.eaten);
    assert_eq!(g.fright_steps, 0);
}

#[test]
fn update_ends_spawning_on_reds_cell_unless_facing_down() {
    let mut g = GhostState::new(GhostColor::Pink);
    g.loc = LocationState::new(11, 13, Direction::Down);
    g.update();
    assert!(g.spawning);
    g.loc = LocationState::new(11, 13, Direction::Left);
    g.update();
    assert!(!g.spawning);
    let mut h = GhostState::new(GhostColor::Pink);
    h.loc = LocationState::new(11, 12, Direction::Left);
    h.update();
    assert!(h.spawning);
}
