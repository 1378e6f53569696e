//! What the commands of the program do and show.
pub mod args;
pub mod commands;
pub mod daemon;
pub mod feed_info;
pub mod helpers;
pub mod output;
pub mod reimport;
pub mod rules_list;
