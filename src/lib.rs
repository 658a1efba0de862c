//! A chunked, lazily generated terrain store for a voxel world.
//!
//! `game_map` maps integer world coordinates to chunks and caches each chunk
//! the first time one of its tiles is asked for; `color_scheme` holds the
//! colour bands that classify a terrain sample.

pub mod color_scheme;
pub mod game_map;
pub mod laws;
