pub mod addon;
pub mod loader;
pub mod source;
