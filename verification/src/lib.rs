//! Decides whether the hardware clock's time standard deserves a lecture,
//! and what the terminal should show when it does.

pub mod state;
pub mod detector;
pub mod adjtime;
pub mod message;
pub mod renderer;
