//! Decision core of the gcit daemon.
pub mod config;
pub mod git;
pub mod names;
pub mod object_id;
pub mod state;
pub mod supervisor;
pub mod text;
pub mod time;
