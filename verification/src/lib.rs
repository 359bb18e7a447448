//! Core of a grid-based snake game: the snake's body and heading, the food
//! set, the direction-change and movement/collision steps, and the tile
//! sprite selector. The host that renders, polls keys and plays sounds sits
//! outside; it hands these functions plain values (elapsed time, key states)
//! and reads plain values back.

pub mod cell;
pub mod direction;
pub mod food;
pub mod movement;
pub mod snake;
pub mod state;
pub mod tile;
