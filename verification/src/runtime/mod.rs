//! The host runtime: movement, guest frames, keyboard, meshes.

pub mod host;
pub mod input;
pub mod mesh;
pub mod movement;
pub mod platform;
