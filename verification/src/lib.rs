//! The logic of a podcast archiver: rules, feeds, downloads, restreaming and its terminal UI.
pub mod cli;
pub mod config;
pub mod downloader;
pub mod downloads;
pub mod episode;
pub mod feed;
pub mod feed_parse;
pub mod feed_sync;
pub mod filename;
pub mod http;
pub mod ids;
pub mod markup;
pub mod metadata;
pub mod paths;
pub mod playtime;
pub mod rss_gen;
pub mod rules;
pub mod server;
pub mod spans;
pub mod storage;
pub mod text;
pub mod time;
pub mod tui;
pub mod weburl;
