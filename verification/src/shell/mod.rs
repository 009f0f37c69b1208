//! The editor shell without its window.

pub mod ai;
pub mod app;
pub mod launch;
