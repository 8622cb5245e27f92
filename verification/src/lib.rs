//! Game logic, geometry and rendering bookkeeping for a set of small
//! calculator games (Snake, Pac-Man, Connect Four) and the tile engine
//! they share, with every function verified against its contract.
//!
//! Hardware access (display, keyboard, timers, storage, random numbers)
//! is not performed here: functions that used to draw return the list of
//! drawing operations they decided on, and functions that used to read a
//! timer or a random source take that value as an argument.

pub mod eadk;
pub mod utils;
pub mod numbers;
pub mod graphical;
pub mod num_engine;
pub mod pacman;
pub mod puissance4;
pub mod snake;
pub mod menu;
pub mod widgets;
pub mod storage;
pub mod ppm;
