//! A dotfile manager's core: the versioned backup store and the per-file
//! decisions of install, uninstall, restore, status and reset.
//!
//! The caller walks the directories and reads the files; the functions here
//! decide, from what was observed, what is to be written.

pub mod backup;
pub mod cli;
pub mod config;
pub mod engine;
pub mod error;
pub mod model;
pub mod paths;
pub mod restore_all;
pub mod status;
pub mod text;
