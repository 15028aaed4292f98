pub mod text;
pub mod paths;
pub mod error;
pub mod config;
pub mod template;
pub mod quoting;
pub mod output;
pub mod hook;
pub mod init;
pub mod color;
pub mod cli;
pub mod git;
pub mod vcs;
pub mod trust;
pub mod interactive;
pub mod command;
pub mod glob;
pub mod clock;
pub mod prompt;
