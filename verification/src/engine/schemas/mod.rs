pub mod ignore;
pub mod included;
pub mod lock;
pub mod manifest;
pub mod modpacks;
