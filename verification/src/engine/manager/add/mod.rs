pub mod models;
pub mod mod_handler;
