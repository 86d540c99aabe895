//! BenchBoss: routes physical gamepads into four virtual Xbox controller
//! slots plus one bench position, and hot-swaps players between them.

pub mod routing;
pub mod controller;
pub mod commands;
