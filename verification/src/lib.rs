//! Profile isolation and process bookkeeping for running several desktop
//! agent instances side by side, each with its own home, data and temp
//! directories.
pub mod command;
pub mod escape;
pub mod launcher;
pub mod laws;
pub mod menu;
pub mod paths;
pub mod process_list;
pub mod profile;
pub mod running;
pub mod text;
