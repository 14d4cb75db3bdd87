//! The terminal interface model: the input line editor and its history, the
//! key and mouse handling, and what the screen shows.

pub mod app;
pub mod input;
pub mod render;
pub mod widgets;
