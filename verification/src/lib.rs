//! Project-tree rendering for AI context windows: the verified core.
pub mod text;
pub mod paths;
pub mod detector;
pub mod ignorer;
pub mod tree;
pub mod cli;
pub mod config;
pub mod init;
pub mod walker;
pub mod ansi;
pub mod render;
pub mod json;
pub mod clipboard;
pub mod git;
pub mod importance;
pub mod watch;
pub mod output;
pub mod plain;
