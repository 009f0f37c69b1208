//! The headless editor core.

pub mod commands;
pub mod selection;
pub mod state;
pub mod transform_edit;
