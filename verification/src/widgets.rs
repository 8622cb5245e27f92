//! Small input widgets.

pub mod numberinput;
