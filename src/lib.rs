//! A grid-based snake game: toroidal movement, a buffered direction queue,
//! egg placement by rejection sampling, self-collision, and the geometry of
//! its smooth-sliding and exploding presentation.
pub mod dead;
pub mod draw;
pub mod game;
pub mod grid;
pub mod render;
pub mod snake;
pub mod utils;
