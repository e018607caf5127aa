//! A grid snake game: the snake, the markers on the board, and the step
//! function that moves the snake, resolves collisions, feeds and teleports it.

pub mod draw;
pub mod food;
pub mod game;
pub mod snake;
