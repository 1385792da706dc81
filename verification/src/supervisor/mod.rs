//! What the daemon's supervisor decides.
pub mod action;
pub mod control;
pub mod credentials;
pub mod diff;
pub mod flows;
pub mod reload;
pub mod respawn;
pub mod run;
pub mod types;
