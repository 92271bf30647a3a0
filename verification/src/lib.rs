//! A tick-driven simulation of foraging creatures on a discrete grid.
//!
//! Each tick, a planner converts a creature's physiological state into a
//! behavioral intent, resolvers turn intents into concrete actions (travel,
//! eat), an A* pathfinder turns travel orders into waypoint lists, and
//! executors advance positions, consume food, resolve pregnancies, and apply
//! the calorie economy. The simulation owns all entities; every subsystem is
//! a function on the explicit world state.

use vstd::prelude::*;

pub mod band;
pub mod entities;
pub mod feeding;
pub mod grid;
pub mod motion;
pub mod pathfind;
pub mod planner;
pub mod spatial;
pub mod vitals;
pub mod world;

verus! {

/// Calories deducted for each cell of movement.
pub const MOVE_COST: i64 = 2;

/// Calories deducted every tick from every creature, unconditionally.
pub const LIVE_COST: i64 = 1;

/// Calories deducted for one tick of work on an eat action.
pub const WORK_COST: i64 = 20;

/// Calories deducted when a creature becomes pregnant.
pub const PREGNANT_COST: i64 = 1000;

/// Species calorie capacity; newborns start with half of it.
pub const HUMAN_MAX_CALORIES: i64 = 2500;

/// Ticks a pregnancy takes to come to term.
pub const HUMAN_PREGNANCY_DURATION: u32 = 75;

/// Territory radius around the band center.
pub const BAND_RADIUS: i64 = 10;

/// Nutrition granted by a fully harvested wheat plant.
pub const WHEAT_NUTRIENTS: i64 = 1000;

} // verus!
