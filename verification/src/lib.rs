//! A portal-and-sector world model with the bookkeeping that drives a
//! fixed-rate frame loop: bounded world containers, frame pacing, input
//! handling, portal traversal and the pixel buffer handed to a display.
//!
//! All world quantities are fixed-point integers (`typedefs::FIXED_ONE` per
//! world unit), so every rule of the engine is stated over exact arithmetic.

pub mod typedefs;
pub mod renderer;
pub mod screen;
pub mod game_state;
pub mod player;
pub mod utils;
pub mod keyboard;
pub mod projection;
pub mod portal;
pub mod planes;
pub mod frame;
pub mod compose;
