//! The state shown by the terminal monitor and the text it displays.

pub mod display;
pub mod state;
pub mod text;
