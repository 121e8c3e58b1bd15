//! Core of a Conway's-Game-of-Life service: a bounded binary grid evolved by
//! the B3/S23 rule with an undo history, text loaders for initial patterns,
//! and a recording session that encodes captured RGB frames into a looping
//! animated image.

pub mod board;
pub mod engine;
pub mod gif_codec;
pub mod logging;
pub mod middleware;
pub mod recorder;
pub mod routes;
pub mod rule;
pub mod text_grid;
