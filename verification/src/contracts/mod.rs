//! Plain data shared by every part of the engine.

pub mod basics;
pub mod code;
pub mod comp;
pub mod components;
pub mod delta;
pub mod wire;
