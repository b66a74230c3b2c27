use vstd::prelude::*;

pub mod text;
pub mod grid;
pub mod rng;
pub mod territory;
pub mod world;
pub mod skills;
pub mod cards;
pub mod terrain;
pub mod terrain_gen;
pub mod player;
pub mod neutral;
pub mod items;
pub mod facilities;
pub mod card_stats;
pub mod model;
pub mod homes;
pub mod config;
pub mod game_log;
pub mod state;
pub mod ai;
pub mod travel;
pub mod progression;
pub mod auth;
pub mod defense;
pub mod combos;
pub mod formation;
pub mod combat;
pub mod explore;
pub mod dev_bot;
pub mod events;
pub mod alliance;
pub mod outpost;
pub mod market;
pub mod kingdom;

verus! {
}
