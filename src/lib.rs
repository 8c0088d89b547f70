//! Rules of a game of Snake on a fixed grid: coordinates and directions, the
//! occupancy grid that stores the snake's body, the game state with its
//! per-tick transition, and a driver that plays whole episodes with an agent.
pub mod api;
pub mod bitgrid;
pub mod common;
pub mod random;
pub mod simulator;
pub mod snake;
