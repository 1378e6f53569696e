//! Rules that decide what happens to each episode.
pub mod config;
pub mod engine;
pub mod pattern;
