//! The entity world: raw storage, the fixed archetype, scenes.

pub mod scene;
pub mod storage;
pub mod world;
