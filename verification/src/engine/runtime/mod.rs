pub mod launchers;
pub mod loaders;
