//! Snake: the body kept in a double-ended queue, walls, fruits, and the
//! move of each tick.

pub mod body;
pub mod game_snake;
pub mod menu;
pub mod snake_ui;
pub mod utils;
