//! Pac-Man: the maze, the moves, the ghosts' choices, fruits, levels and
//! the rules that the game loop applies every frame.

pub mod game;
pub mod maze;
pub mod moveable;
pub mod ghost;
pub mod levels;
pub mod fruit;
pub mod player;
pub mod pac_ui;
