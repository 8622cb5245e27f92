//! Connect Four for two or three players, with a computer opponent.

pub mod table;
pub mod game_p4;
pub mod ia_p4;
pub mod ui_p4;
