use vstd::prelude::*;

pub mod animation;
pub mod biome;
pub mod boundary;
pub mod breach;
pub mod config;
pub mod elite;
pub mod enemy;
pub mod hud;
pub mod input;
pub mod orb;
pub mod projectile;
pub mod render;
mod rng;
pub mod save;
pub mod screen;
pub mod shield;
pub mod spawn;
pub mod text;
pub mod text_metrics;
pub mod upgrade_catalog;

verus! {

} // verus!
