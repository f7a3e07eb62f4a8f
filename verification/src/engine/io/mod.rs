pub mod hash;
pub mod manifest;
pub mod metadata;
pub mod modpack;
pub mod project;
pub mod server;
