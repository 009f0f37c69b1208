//! The model side: proposals, configuration, conversations, providers.

pub mod cli;
pub mod config;
pub mod content;
pub mod env;
pub mod operator;
pub mod providers;
