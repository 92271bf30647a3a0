//! Entities of the simulation: creatures with their physiological and
//! behavioral state, and plants (food sources).
//!
//! A creature's behavioral state keeps intents and the eat action in a
//! single exclusive slot (`Goal`), so a creature can never hold two intents,
//! nor an intent together with an eat action, by construction. The travel
//! order is the separate arrival mechanism that positional preconditions
//! install; it may accompany an eat action while the creature walks to its
//! food.

use vstd::prelude::*;
use crate::grid::Position;

verus! {

/// A calorie pool: the current level and the species capacity.
#[derive(Clone, Copy, PartialEq, Eq, Structural, Debug)]
pub struct Calories {
    pub current: i64,
    pub max: i64,
}

/// What a plant is worth when fully harvested.
#[derive(Clone, Copy, PartialEq, Eq, Structural, Debug)]
pub struct FoodSource {
    pub nutrition_value: i64,
}

#[derive(Clone, Copy, PartialEq, Eq, Structural, Debug)]
pub enum PlantType {
    Wheat,
}

/// An in-progress eat action against a target plant.
#[derive(Clone, Copy, PartialEq, Eq, Structural, Debug)]
pub struct ActionEat {
    pub target_entity: u64,
    pub progress: u32,
    pub max_progress: u32,
}

/// A travel order: the arrival mechanism that moves a creature toward a
/// destination one waypoint per tick once the pathfinder has served it.
#[derive(Clone, Copy, PartialEq, Eq, Structural, Debug)]
pub struct ActionTravelTo {
    pub destination: Position,
}

/// A computed path: the waypoints still to walk, in order.
#[derive(Clone, PartialEq, Eq, Debug)]
pub struct ActivePath {
    pub nodes: Vec<Position>,
}

/// A positional precondition: the creature must be within `radius`
/// (Manhattan) of `position` before its pending action may proceed.
#[derive(Clone, Copy, PartialEq, Eq, Structural, Debug)]
pub struct RequiresAt {
    pub position: Position,
    pub radius: i64,
}

/// A pregnancy record: ticks elapsed and ticks required.
#[derive(Clone, Copy, PartialEq, Eq, Structural, Debug)]
pub struct Pregnant {
    pub progress: u32,
    pub max_progress: u32,
}

/// The exclusive behavioral slot: no goal, exactly one intent, or the eat
/// action. Holding this as one tagged field rules out illegal combinations
/// by construction.
#[derive(Clone, Copy, PartialEq, Eq, Structural, Debug)]
pub enum Goal {
    WantsToEat,
    WantsToIdle,
    WantsToProcreate,
    WantsToReturnToBand,
    Eat(ActionEat),
}

/// A creature: identity, position, calorie pool, behavioral slot, the
/// travel/path arrival machinery, an optional positional precondition, the
/// outside-territory flag, and an optional pregnancy.
#[derive(Clone, PartialEq, Eq, Debug)]
pub struct Creature {
    pub id: u64,
    pub pos: Position,
    pub calories: Calories,
    pub goal: Option<Goal>,
    pub travel: Option<ActionTravelTo>,
    pub path: Option<ActivePath>,
    pub requires_at: Option<RequiresAt>,
    pub outside_band: bool,
    pub pregnancy: Option<Pregnant>,
}

/// A plant: identity, position, nutrition, capability tags.
#[derive(Clone, PartialEq, Eq, Debug)]
pub struct Plant {
    pub id: u64,
    pub pos: Position,
    pub plant_type: PlantType,
    pub food: FoodSource,
    pub harvestable: bool,
    pub edible: bool,
}

/// Raised by the pathfinder when no path under the cost cap exists; the
/// sole recovery channel for unreachable destinations.
#[derive(Clone, Copy, PartialEq, Eq, Structural, Debug)]
pub struct NavigationFailed {
    pub entity: u64,
    pub destination: Position,
}

impl Creature {
    /// The creature holds an intent (not an action) in its behavioral slot.
    pub open spec fn has_intent(&self) -> bool {
        match self.goal {
            Some(Goal::WantsToEat) => true,
            Some(Goal::WantsToIdle) => true,
            Some(Goal::WantsToProcreate) => true,
            Some(Goal::WantsToReturnToBand) => true,
            _ => false,
        }
    }

    pub open spec fn has_eat_action(&self) -> bool {
        self.goal matches Some(Goal::Eat(_))
    }

    /// Nothing behavioral is pending: the planner's consideration set.
    pub open spec fn is_bare(&self) -> bool {
        &&& self.goal is None
        &&& self.travel is None
        &&& self.path is None
        &&& self.requires_at is None
        &&& !self.outside_band
    }
}

/// Intents and the eat action share one exclusive slot, so at any point,
/// between ticks or within one, a creature holds at most one intent and
/// never an intent together with an eat action: the representation rules
/// the illegal combinations out by construction.
pub proof fn lemma_intent_action_exclusive(c: Creature)
    ensures
        !(c.has_intent() && c.has_eat_action()),
        c.has_intent() ==> exists|g: Goal| c.goal == Some(g) && !(g matches Goal::Eat(_)),
{
    if c.has_intent() {
        let g = c.goal->0;
        assert(c.goal == Some(g) && !(g matches Goal::Eat(_)));
    }
}

} // verus!
