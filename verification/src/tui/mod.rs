//! The interactive browsers: what they show and how they answer to keys.
pub mod episode_browser;
pub mod feed_browser;
pub mod shared;
