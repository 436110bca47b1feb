//! The decisions of a desktop program that starts with care: what it sets up and in which order,
//! which device it computes on, how its log is kept within bounds, what it moves and sweeps away,
//! and what it says when it crashes.
//!
//! Work that touches the world is named, not done, here: a step machine names the next thing to
//! do, its caller does that and hands back what came of it. What any sequence of answers can lead
//! to is stated and proved beside each machine.

pub mod addons;
pub mod cache_migration;
pub mod cleanup;
pub mod clock;
pub mod course;
pub mod crash;
pub mod cuda_probe;
pub mod cudnn;
pub mod device;
pub mod initialize;
pub mod json;
pub mod launch;
pub mod move_dir;
pub mod move_laws;
pub mod paths;
pub mod resources;
pub mod rolling_log;
pub mod setup;
pub mod text;
