mod array;
pub mod collisions;
pub mod game_engine;
pub mod game_helpers;
pub mod game_modes;
pub mod game_state;
pub mod ghost_helpers;
pub mod ghost_state;
pub mod laws;
pub mod location;
pub mod maze;
pub mod maze_shape;
pub mod pathfinding;
pub mod pellets;
pub mod planner;
mod rng;
pub mod stepping;
pub mod track;
pub mod variables;
pub mod wire;
