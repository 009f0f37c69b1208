pub mod ai;
pub mod bytes;
pub mod capture;
pub mod contracts;
pub mod ecs;
pub mod editor;
pub mod fx;
pub mod runtime;
pub mod shell;
pub mod text;
