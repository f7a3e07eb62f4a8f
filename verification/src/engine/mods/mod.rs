pub mod inspector;
pub mod local;
