//! acmon: measuring what AI coding agents cost on a managed machine.

pub mod book;
pub mod cli;
pub mod collect;
pub mod deliver;
pub mod detect;
pub mod display;
pub mod isotime;
pub mod launchd;
pub mod laws;
pub mod liveness;
pub mod lock;
pub mod machtime;
pub mod memory;
pub mod meter;
pub mod notify;
pub mod order;
pub mod real_world;
pub mod render;
pub mod schedule;
pub mod starts;
pub mod state;
pub mod text;
pub mod tiers;
pub mod time;
pub mod vcs;
pub mod world;
