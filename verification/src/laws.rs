//! What the library promises, stated of its rules from outside: what a result has to satisfy, and how the
//! results for two inputs relate.

pub mod calendar;
pub mod caveats;
pub mod collection;
pub mod commands;
pub mod costs;
pub mod decisions;
pub mod display;
pub mod drawing;
pub mod launchd;
pub mod launches;
pub mod liveness;
pub mod memory;
pub mod notify;
pub mod pace;
pub mod reading;
pub mod screen;
pub mod sessions;
pub mod text;
pub mod tiers;
pub mod workspaces;
