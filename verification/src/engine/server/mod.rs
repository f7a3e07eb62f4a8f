pub mod install;
pub mod run;
