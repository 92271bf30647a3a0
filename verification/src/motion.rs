//! Travel machinery: positional-precondition enforcement, the pathfinding
//! pass that turns travel orders into waypoint lists, recovery from
//! navigation failures, and the movement executor.

use vstd::prelude::*;
use crate::grid::{GameGrid, Position, manhattan, spec_manhattan};
use crate::entities::{
    ActionTravelTo,
    ActivePath,
    Calories,
    Creature,
    Goal,
    NavigationFailed,
};
use crate::pathfind::{compute_waypoints, is_path, path_cost};
use crate::vitals::cal_in_range;

verus! {

/// What precondition enforcement leaves a creature as: a creature too far
/// from its required position with no travel under way is handed a travel
/// order; one within range with a stale travel order has it cleared.
pub open spec fn spec_enforce_precondition(c: Creature) -> Creature {
    match c.requires_at {
        None => c,
        Some(req) => {
            let d = spec_manhattan(c.pos, req.position);
            if d > req.radius && c.travel is None && c.path is None {
                Creature { travel: Some(ActionTravelTo { destination: req.position }), ..c }
            } else if d <= req.radius && c.travel is Some {
                Creature { travel: None, ..c }
            } else {
                c
            }
        },
    }
}

/// Guarantees a travel order exists whenever an action has a positional
/// prerequisite not yet met, and clears one that has served its purpose.
pub fn action_preconditions_system(creatures: Vec<Creature>) -> (out: Vec<Creature>)
    ensures
        out@.len() == creatures@.len(),
        forall|i: int|
            0 <= i < out@.len() ==> #[trigger] out@[i] == spec_enforce_precondition(
                creatures@[i],
            ),
{
    let ghost orig = creatures@;
    let mut input = creatures;
    let mut out: Vec<Creature> = Vec::new();
    while input.len() > 0
        invariant
            orig.len() == out@.len() + input@.len(),
            forall|j: int| 0 <= j < input@.len() ==> #[trigger] input@[j] == orig[out@.len() + j],
            forall|j: int|
                0 <= j < out@.len() ==> #[trigger] out@[j] == spec_enforce_precondition(orig[j]),
        decreases input@.len(),
    {
        let mut c = input.remove(0);
        match c.requires_at {
            None => {},
            Some(req) => {
                let d = manhattan(c.pos, req.position);
                if d > req.radius && c.travel.is_none() && c.path.is_none() {
                    c.travel = Some(ActionTravelTo { destination: req.position });
                } else if d <= req.radius && c.travel.is_some() {
                    c.travel = None;
                }
            },
        }
        out.push(c);
    }
    out
}

/// How the pathfinding pass treats one creature. A creature already at
/// its destination has the order cleared; a reachable destination gets a
/// minimal-cost waypoint list; an unreachable one has the order cleared
/// (the failure is recorded separately).
pub open spec fn spec_pathfind_rel(grid: GameGrid, c: Creature, d: Creature) -> bool {
    match c.travel {
        Some(t) => {
            if c.path is Some {
                d == c
            } else if c.pos == t.destination {
                d == Creature { travel: None, ..c }
            } else if exists|q: Seq<Position>| is_path(grid, q, c.pos, t.destination) {
                &&& d.path matches Some(ap)
                &&& ap.nodes@.len() >= 1
                &&& is_path(grid, seq![c.pos] + ap.nodes@, c.pos, t.destination)
                &&& forall|q: Seq<Position>|
                    is_path(grid, q, c.pos, t.destination) ==> path_cost(grid, q) >= path_cost(
                        grid,
                        seq![c.pos] + ap.nodes@,
                    )
                &&& d == Creature { path: d.path, ..c }
            } else {
                d == Creature { travel: None, ..c }
            }
        },
        None => d == c,
    }
}

/// The navigation failures one pathfinding pass raises, in creature
/// order: one per creature whose travel order names an unreachable
/// destination.
pub open spec fn spec_nav_failures(grid: GameGrid, s: Seq<Creature>) -> Seq<NavigationFailed>
    decreases s.len(),
{
    if s.len() == 0 {
        Seq::empty()
    } else {
        spec_nav_failures(grid, s.drop_last()) + {
            let c = s.last();
            match c.travel {
                Some(t) => {
                    if c.path is None && c.pos != t.destination && !(exists|q: Seq<Position>|
                        is_path(grid, q, c.pos, t.destination))
                    {
                        seq![NavigationFailed { entity: c.id, destination: t.destination }]
                    } else {
                        Seq::empty()
                    }
                },
                None => Seq::empty(),
            }
        }
    }
}

/// Computes a path for every creature holding a travel order and no
/// path: an optimal waypoint list when one exists under the cost cap,
/// else the order is cleared and a navigation-failure signal raised — the
/// sole recovery channel for unreachable destinations.
pub fn pathfinding_system(creatures: Vec<Creature>, grid: &GameGrid) -> (out: (
    Vec<Creature>,
    Vec<NavigationFailed>,
))
    requires
        grid.wf(),
    ensures
        out.0@.len() == creatures@.len(),
        forall|i: int|
            0 <= i < out.0@.len() ==> spec_pathfind_rel(*grid, creatures@[i], #[trigger] out.0@[i]),
        out.1@ == spec_nav_failures(*grid, creatures@),
{
    let ghost orig = creatures@;
    let mut input = creatures;
    let mut out: Vec<Creature> = Vec::new();
    let mut failures: Vec<NavigationFailed> = Vec::new();
    while input.len() > 0
        invariant
            grid.wf(),
            orig.len() == out@.len() + input@.len(),
            forall|j: int| 0 <= j < input@.len() ==> #[trigger] input@[j] == orig[out@.len() + j],
            forall|j: int|
                0 <= j < out@.len() ==> spec_pathfind_rel(*grid, orig[j], #[trigger] out@[j]),
            failures@ == spec_nav_failures(*grid, orig.take(out@.len() as int)),
        decreases input@.len(),
    {
        let ghost k = out@.len() as int;
        let mut c = input.remove(0);
        let ghost pre = c;
        match c.travel {
            None => {},
            Some(t) => {
                if c.path.is_none() {
                    if c.pos == t.destination {
                        c.travel = None;
                    } else {
                        match compute_waypoints(grid, c.pos, t.destination) {
                            Some(nodes) => {
                                c.path = Some(ActivePath { nodes });
                            },
                            None => {
                                c.travel = None;
                                failures.push(
                                    NavigationFailed { entity: c.id, destination: t.destination },
                                );
                            },
                        }
                    }
                }
            },
        }
        out.push(c);
        proof {
            assert(orig.take(k + 1).drop_last() =~= orig.take(k));
            assert(orig.take(k + 1).last() == pre);
            assert(spec_pathfind_rel(*grid, pre, out@[k]));
            assert(failures@ =~= spec_nav_failures(*grid, orig.take(k + 1)));
        }
    }
    proof {
        assert(orig.take(orig.len() as int) =~= orig);
    }
    (out, failures)
}

/// What failure recovery leaves a creature as: an affected creature whose
/// failure broke an eating chain has the whole chain torn down and the
/// seeking intent reinstated; anything else is left for the next
/// planning cycle.
pub open spec fn spec_recover(c: Creature, failed: bool) -> Creature {
    if failed && (c.goal matches Some(Goal::Eat(_)) || c.requires_at is Some) {
        Creature {
            goal: Some(Goal::WantsToEat),
            requires_at: None,
            travel: None,
            path: None,
            ..c
        }
    } else {
        c
    }
}

/// `id` is named by some navigation failure.
pub open spec fn spec_named_by_failure(fails: Seq<NavigationFailed>, id: u64) -> bool {
    exists|j: int| 0 <= j < fails.len() && (#[trigger] fails[j]).entity == id
}

fn failures_name(fails: &Vec<NavigationFailed>, id: u64) -> (r: bool)
    ensures
        r == spec_named_by_failure(fails@, id),
{
    let mut j: usize = 0;
    while j < fails.len()
        invariant
            j <= fails@.len(),
            forall|i: int| 0 <= i < j ==> (#[trigger] fails@[i]).entity != id,
        decreases fails@.len() - j,
    {
        if fails[j].entity == id {
            return true;
        }
        j = j + 1;
    }
    false
}

/// Reacts to navigation failures: a creature whose unreachable travel
/// served an eat action or a positional precondition is reset to seek
/// food from scratch next tick.
pub fn action_failure_resolution_system(
    creatures: Vec<Creature>,
    failures: &Vec<NavigationFailed>,
) -> (out: Vec<Creature>)
    ensures
        out@.len() == creatures@.len(),
        forall|i: int|
            0 <= i < out@.len() ==> #[trigger] out@[i] == spec_recover(
                creatures@[i],
                spec_named_by_failure(failures@, creatures@[i].id),
            ),
{
    let ghost orig = creatures@;
    let mut input = creatures;
    let mut out: Vec<Creature> = Vec::new();
    while input.len() > 0
        invariant
            orig.len() == out@.len() + input@.len(),
            forall|j: int| 0 <= j < input@.len() ==> #[trigger] input@[j] == orig[out@.len() + j],
            forall|j: int|
                0 <= j < out@.len() ==> #[trigger] out@[j] == spec_recover(
                    orig[j],
                    spec_named_by_failure(failures@, orig[j].id),
                ),
        decreases input@.len(),
    {
        let mut c = input.remove(0);
        let failed = failures_name(failures, c.id);
        let is_eating = match &c.goal {
            Some(Goal::Eat(_)) => true,
            _ => false,
        };
        if failed && (is_eating || c.requires_at.is_some()) {
            c.goal = Some(Goal::WantsToEat);
            c.requires_at = None;
            c.travel = None;
            c.path = None;
        }
        out.push(c);
    }
    out
}

/// How one movement step treats a creature: the leading waypoint is
/// dequeued and becomes the new position, the movement cost is paid, and
/// an exhausted path releases the creature (path and travel order both
/// cleared).
pub open spec fn spec_move_rel(c: Creature, d: Creature, cost: int) -> bool {
    match c.path {
        Some(ap) => {
            if ap.nodes@.len() > 0 {
                let rest = ap.nodes@.skip(1);
                &&& d.id == c.id
                &&& d.pos == ap.nodes@[0]
                &&& d.calories == Calories {
                    current: (c.calories.current - cost) as i64,
                    ..c.calories
                }
                &&& if rest.len() == 0 {
                    d.path is None && d.travel is None
                } else {
                    d.path matches Some(ap2) && ap2.nodes@ == rest && d.travel == c.travel
                }
                &&& d.goal == c.goal
                &&& d.requires_at == c.requires_at
                &&& d.outside_band == c.outside_band
                &&& d.pregnancy == c.pregnancy
            } else {
                d == Creature { path: None, travel: None, ..c }
            }
        },
        None => d == c,
    }
}

/// The creatures that will advance along a path this tick, in order.
pub open spec fn spec_movers(s: Seq<Creature>) -> Seq<u64>
    decreases s.len(),
{
    if s.len() == 0 {
        Seq::empty()
    } else {
        spec_movers(s.drop_last()) + {
            let c = s.last();
            match c.path {
                Some(ap) => if ap.nodes@.len() > 0 {
                    seq![c.id]
                } else {
                    Seq::empty()
                },
                None => Seq::empty(),
            }
        }
    }
}

/// Dequeues exactly one waypoint per creature per tick, deducting the
/// fixed movement cost; an emptied path and its travel order are cleared,
/// releasing the creature back to the planner next tick. Also returns
/// which creatures moved, so the eat executor can exclude them.
pub fn perform_movement_system(creatures: Vec<Creature>, move_cost: i64) -> (out: (
    Vec<Creature>,
    Vec<u64>,
))
    requires
        0 <= move_cost <= 100000000,
        forall|i: int|
            0 <= i < creatures@.len() ==> cal_in_range(
                (#[trigger] creatures@[i]).calories.current,
            ),
    ensures
        out.0@.len() == creatures@.len(),
        forall|i: int|
            0 <= i < out.0@.len() ==> spec_move_rel(
                creatures@[i],
                #[trigger] out.0@[i],
                move_cost as int,
            ),
        out.1@ == spec_movers(creatures@),
{
    let ghost orig = creatures@;
    let mut input = creatures;
    let mut out: Vec<Creature> = Vec::new();
    let mut moved: Vec<u64> = Vec::new();
    while input.len() > 0
        invariant
            0 <= move_cost <= 100000000,
            orig.len() == out@.len() + input@.len(),
            forall|j: int| 0 <= j < input@.len() ==> #[trigger] input@[j] == orig[out@.len() + j],
            forall|j: int|
                0 <= j < input@.len() ==> cal_in_range((#[trigger] input@[j]).calories.current),
            forall|j: int|
                0 <= j < out@.len() ==> spec_move_rel(orig[j], #[trigger] out@[j], move_cost as int),
            moved@ == spec_movers(orig.take(out@.len() as int)),
        decreases input@.len(),
    {
        let ghost k = out@.len() as int;
        let mut c = input.remove(0);
        let ghost pre = c;
        let path_field = c.path;
        match path_field {
            None => {
                c.path = None;
            },
            Some(mut ap) => {
                if ap.nodes.len() > 0 {
                    let newpos = ap.nodes.remove(0);
                    c.pos = newpos;
                    c.calories.current = c.calories.current - move_cost;
                    moved.push(c.id);
                    if ap.nodes.len() == 0 {
                        c.path = None;
                        c.travel = None;
                    } else {
                        c.path = Some(ap);
                    }
                } else {
                    c.path = None;
                    c.travel = None;
                }
            },
        }
        out.push(c);
        proof {
            assert(orig.take(k + 1).drop_last() =~= orig.take(k));
            assert(orig.take(k + 1).last() == pre);
            assert(spec_move_rel(pre, out@[k], move_cost as int));
            assert(moved@ =~= spec_movers(orig.take(k + 1)));
        }
    }
    proof {
        assert(orig.take(orig.len() as int) =~= orig);
    }
    (out, moved)
}

} // verus!
