//! The decisions of the subcommands.

pub mod cd;
pub mod config;
pub mod list;
pub mod remove;
pub mod add;
pub mod trust;
