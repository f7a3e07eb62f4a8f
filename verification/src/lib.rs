//! Project, lock and server-configuration logic of a Minecraft mod manager.

pub mod text;
pub mod json;
pub mod strmap;
pub mod lock;
pub mod loaders;
pub mod domain;
pub mod errors;
pub mod engine;
pub mod inspector;
