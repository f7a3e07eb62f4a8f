pub mod lister;
pub mod initializer;
