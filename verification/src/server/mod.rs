//! The server that shows archived feeds to podcast apps.
pub mod auth;
pub mod config;
pub mod handlers;
pub mod rss;
