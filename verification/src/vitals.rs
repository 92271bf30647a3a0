//! The vital economy: the unconditional per-tick living cost, death of any
//! calorie-bearing entity whose pool is exhausted, and the tick and
//! population counters.

use vstd::prelude::*;
use crate::entities::{Calories, Creature};

verus! {

/// Calorie values every system keeps within this range; far wider than any
/// reachable value, it only serves to keep the arithmetic exact.
pub open spec fn cal_in_range(v: i64) -> bool {
    -10_000_000_000 <= v <= 10_000_000_000
}

/// Monotonically increasing tick counter.
#[derive(Clone, Copy, PartialEq, Eq, Structural, Debug)]
pub struct TickCount(pub u64);

/// Live creature count, recomputed each tick.
#[derive(Clone, Copy, PartialEq, Eq, Structural, Debug)]
pub struct PopulationCount(pub u64);

/// Presentation toggle for drawing the band territory; carried in the
/// simulation state for the surrounding shell to read.
#[derive(Clone, Copy, PartialEq, Eq, Structural, Debug, Default)]
pub struct BandCenterVisualizationEnabled(pub bool);

/// A creature after paying the living cost.
pub open spec fn spec_burn(c: Creature, live_cost: int) -> Creature {
    Creature {
        calories: Calories { current: (c.calories.current - live_cost) as i64, ..c.calories },
        ..c
    }
}

/// Deducts the fixed living cost from every creature, unconditionally and
/// in addition to any action cost already paid this tick.
pub fn calorie_burn_system(creatures: Vec<Creature>, live_cost: i64) -> (out: Vec<Creature>)
    requires
        0 <= live_cost <= 100_000_000,
        forall|i: int|
            0 <= i < creatures@.len() ==> cal_in_range(
                (#[trigger] creatures@[i]).calories.current,
            ),
    ensures
        out@.len() == creatures@.len(),
        forall|i: int|
            0 <= i < out@.len() ==> #[trigger] out@[i] == spec_burn(
                creatures@[i],
                live_cost as int,
            ),
{
    let ghost orig = creatures@;
    let mut input = creatures;
    let mut out: Vec<Creature> = Vec::new();
    while input.len() > 0
        invariant
            0 <= live_cost <= 100_000_000,
            orig.len() == out@.len() + input@.len(),
            forall|j: int| 0 <= j < input@.len() ==> #[trigger] input@[j] == orig[out@.len() + j],
            forall|j: int|
                0 <= j < input@.len() ==> cal_in_range((#[trigger] input@[j]).calories.current),
            forall|j: int|
                0 <= j < out@.len() ==> #[trigger] out@[j] == spec_burn(orig[j], live_cost as int),
        decreases input@.len(),
    {
        let mut c = input.remove(0);
        c.calories.current = c.calories.current - live_cost;
        out.push(c);
    }
    out
}

/// The creatures of `s` whose calorie pool is still above zero, in order.
pub open spec fn spec_survivors(s: Seq<Creature>) -> Seq<Creature>
    decreases s.len(),
{
    if s.len() == 0 {
        Seq::empty()
    } else {
        spec_survivors(s.drop_last()) + if s.last().calories.current > 0 {
            seq![s.last()]
        } else {
            Seq::empty()
        }
    }
}

/// Destroys every entity whose calorie pool is at or below zero, at the
/// end of the tick, unconditionally and regardless of pending intents or
/// actions. Creatures are the calorie-bearing entities of this world.
pub fn death_system(creatures: Vec<Creature>) -> (out: Vec<Creature>)
    ensures
        out@ == spec_survivors(creatures@),
{
    let ghost orig = creatures@;
    let mut input = creatures;
    let mut out: Vec<Creature> = Vec::new();
    while input.len() > 0
        invariant
            input@.len() <= orig.len(),
            forall|j: int|
                0 <= j < input@.len() ==> #[trigger] input@[j] == orig[orig.len() - input@.len()
                    + j],
            out@ == spec_survivors(orig.take(orig.len() - input@.len())),
        decreases input@.len(),
    {
        let ghost k = orig.len() - input@.len();
        let c = input.remove(0);
        proof {
            assert(orig.take(k + 1).drop_last() =~= orig.take(k));
            assert(orig.take(k + 1).last() == c);
        }
        if c.calories.current > 0 {
            out.push(c);
        }
    }
    proof {
        assert(orig.take(orig.len() as int) =~= orig);
    }
    out
}

/// Advances the tick counter.
pub fn tick_counter_system(tick_count: &mut TickCount)
    requires
        old(tick_count).0 < u64::MAX,
    ensures
        final(tick_count).0 == old(tick_count).0 + 1,
{
    tick_count.0 = tick_count.0 + 1;
}

/// Recomputes the population from a live count of creature entities.
pub fn population_counter_system(creatures: &Vec<Creature>, population: &mut PopulationCount)
    ensures
        final(population).0 == creatures@.len(),
{
    population.0 = creatures.len() as u64;
}

} // verus!
