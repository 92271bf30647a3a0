//! The goal planner and the resolvers of intents that food targeting does
//! not own: idle resolution, procreation and pregnancy advancement; plant
//! propagation lives here beside the other spawning logic.

use vstd::prelude::*;
use rand::RngExt;
use crate::grid::{Position, spec_outside_band_radius, is_outside_band_radius};
use crate::entities::{Calories, Creature, FoodSource, Goal, ActionTravelTo, Plant, Pregnant};

verus! {

/// Relies on `rand::rng` and `rand::RngExt::random_range`: returns a value
/// drawn uniformly below `n`; nothing more is assumed of a random draw.
#[verifier::external_body]
pub fn roll_below(n: u32) -> (r: u32)
    requires
        n >= 1,
    ensures
        r < n,
{
    rand::rng().random_range(0..n)
}

/// The intent the planner owes an idle creature, in fixed priority order:
/// territory safety outranks hunger, hunger outranks procreation, and a
/// creature owed nothing else idles.
pub open spec fn spec_planned_intent(c: Creature, center: Position, radius: i64) -> Goal {
    if spec_outside_band_radius(c.pos, center, radius) {
        Goal::WantsToReturnToBand
    } else if c.calories.current < c.calories.max / 2 {
        Goal::WantsToEat
    } else if c.pregnancy is None && c.calories.current >= 3 * c.calories.max / 4 {
        Goal::WantsToProcreate
    } else {
        Goal::WantsToIdle
    }
}

/// What the planner leaves a creature as: untouched unless it holds
/// nothing, else carrying exactly one intent.
pub open spec fn spec_plan(c: Creature, center: Position, radius: i64) -> Creature {
    if c.is_bare() {
        Creature { goal: Some(spec_planned_intent(c, center, radius)), ..c }
    } else {
        c
    }
}

/// Assigns one behavioral intent to every creature holding no intent, no
/// action, no travel order, no path, no positional precondition and no
/// outside-territory flag.
pub fn goal_selection_system(creatures: Vec<Creature>, center: Position, radius: i64) -> (out: Vec<
    Creature,
>)
    requires
        0 <= radius <= 1000000,
        forall|i: int|
            0 <= i < creatures@.len() ==> 1 <= (#[trigger] creatures@[i]).calories.max
                <= 100000000,
    ensures
        out@.len() == creatures@.len(),
        forall|i: int|
            0 <= i < out@.len() ==> #[trigger] out@[i] == spec_plan(creatures@[i], center, radius),
{
    let ghost orig = creatures@;
    let mut input = creatures;
    let mut out: Vec<Creature> = Vec::new();
    while input.len() > 0
        invariant
            0 <= radius <= 1000000,
            orig.len() == out@.len() + input@.len(),
            forall|j: int| 0 <= j < input@.len() ==> #[trigger] input@[j] == orig[out@.len() + j],
            forall|j: int|
                0 <= j < input@.len() ==> 1 <= (#[trigger] input@[j]).calories.max <= 100000000,
            forall|j: int| 0 <= j < out@.len() ==> #[trigger] out@[j] == spec_plan(
                orig[j],
                center,
                radius,
            ),
        decreases input@.len(),
    {
        let mut c = input.remove(0);
        let bare = c.goal.is_none() && c.travel.is_none() && c.path.is_none()
            && c.requires_at.is_none() && !c.outside_band;
        if bare {
            let intent = if is_outside_band_radius(c.pos, center, radius) {
                Goal::WantsToReturnToBand
            } else if c.calories.current < c.calories.max / 2 {
                Goal::WantsToEat
            } else if c.pregnancy.is_none() && c.calories.current >= 3 * c.calories.max / 4 {
                Goal::WantsToProcreate
            } else {
                Goal::WantsToIdle
            };
            c.goal = Some(intent);
        }
        out.push(c);
    }
    out
}

/// Where an idle wander lands: one cell north, south, west or east,
/// clamped to the grid, or the creature's own cell.
pub open spec fn spec_wander_target(p: Position, roll: int, w: int, h: int) -> Position {
    if roll == 0 {
        Position { x: p.x, y: if p.y > 0 { (p.y - 1) as i32 } else { 0 } }
    } else if roll == 1 {
        Position { x: p.x, y: if p.y + 1 < h { (p.y + 1) as i32 } else { p.y } }
    } else if roll == 2 {
        Position { x: if p.x > 0 { (p.x - 1) as i32 } else { 0 }, y: p.y }
    } else if roll == 3 {
        Position { x: if p.x + 1 < w { (p.x + 1) as i32 } else { p.x }, y: p.y }
    } else {
        p
    }
}

/// What idle resolution leaves a creature as, for the die roll it drew:
/// a creature below capacity prefers seeking food; one at capacity
/// wanders one cell (or stays), and a travel order is installed only when
/// the target differs from its own cell.
pub open spec fn spec_resolve_idle(c: Creature, roll: int, w: int, h: int) -> Creature {
    if c.goal != Some(Goal::WantsToIdle) {
        c
    } else if c.calories.current < c.calories.max {
        Creature { goal: Some(Goal::WantsToEat), ..c }
    } else {
        let target = spec_wander_target(c.pos, roll, w, h);
        if target != c.pos {
            Creature {
                goal: None,
                travel: Some(ActionTravelTo { destination: target }),
                ..c
            }
        } else {
            Creature { goal: None, ..c }
        }
    }
}

/// Resolves every wants-to-idle intent: each such creature draws one of
/// five equally likely outcomes; all other creatures are untouched. The
/// ghost result carries the drawn outcomes, so callers know the new state
/// is `spec_resolve_idle` of the old for some admissible draw.
pub fn idle_goal_selection_system(creatures: Vec<Creature>, w: usize, h: usize) -> (out: (
    Vec<Creature>,
    Ghost<Seq<int>>,
))
    requires
        1 <= w <= 1000000,
        1 <= h <= 1000000,
        forall|i: int|
            0 <= i < creatures@.len() ==> {
                let p = (#[trigger] creatures@[i]).pos;
                0 <= p.x < w && 0 <= p.y < h
            },
    ensures
        out.0@.len() == creatures@.len(),
        out.1@.len() == creatures@.len(),
        forall|i: int|
            0 <= i < out.0@.len() ==> 0 <= out.1@[i] < 5 && #[trigger] out.0@[i]
                == spec_resolve_idle(creatures@[i], out.1@[i], w as int, h as int),
{
    let ghost orig = creatures@;
    let ghost mut rolls: Seq<int> = Seq::empty();
    let mut input = creatures;
    let mut out: Vec<Creature> = Vec::new();
    while input.len() > 0
        invariant
            1 <= w <= 1000000,
            1 <= h <= 1000000,
            orig.len() == out@.len() + input@.len(),
            rolls.len() == out@.len(),
            forall|j: int| 0 <= j < input@.len() ==> #[trigger] input@[j] == orig[out@.len() + j],
            forall|j: int|
                0 <= j < input@.len() ==> {
                    let p = (#[trigger] input@[j]).pos;
                    0 <= p.x < w && 0 <= p.y < h
                },
            forall|j: int|
                0 <= j < out@.len() ==> 0 <= rolls[j] < 5 && #[trigger] out@[j]
                    == spec_resolve_idle(orig[j], rolls[j], w as int, h as int),
        decreases input@.len(),
    {
        let mut c = input.remove(0);
        let ghost pre = c;
        let mut the_roll: u32 = 4;
        if c.goal == Some(Goal::WantsToIdle) {
            if c.calories.current < c.calories.max {
                c.goal = Some(Goal::WantsToEat);
            } else {
                let roll = roll_below(5);
                the_roll = roll;
                let mut target = c.pos;
                if roll == 0 {
                    target.y = if c.pos.y > 0 {
                        c.pos.y - 1
                    } else {
                        0
                    };
                } else if roll == 1 {
                    target.y = if ((c.pos.y + 1) as usize) < h {
                        c.pos.y + 1
                    } else {
                        c.pos.y
                    };
                } else if roll == 2 {
                    target.x = if c.pos.x > 0 {
                        c.pos.x - 1
                    } else {
                        0
                    };
                } else if roll == 3 {
                    target.x = if ((c.pos.x + 1) as usize) < w {
                        c.pos.x + 1
                    } else {
                        c.pos.x
                    };
                }
                c.goal = None;
                if target.x != c.pos.x || target.y != c.pos.y {
                    c.travel = Some(ActionTravelTo { destination: target });
                }
                proof {
                    assert(target == spec_wander_target(pre.pos, the_roll as int, w as int, h as int));
                }
            }
        }
        proof {
            assert(c == spec_resolve_idle(pre, the_roll as int, w as int, h as int));
            rolls = rolls.push(the_roll as int);
        }
        out.push(c);
    }
    (out, Ghost(rolls))
}

/// What procreation resolution leaves a creature as: the fixed cost paid,
/// a fresh pregnancy record attached, the intent cleared.
pub open spec fn spec_resolve_procreation(c: Creature, cost: int, duration: u32) -> Creature {
    if c.goal == Some(Goal::WantsToProcreate) {
        Creature {
            goal: None,
            calories: Calories { current: (c.calories.current - cost) as i64, ..c.calories },
            pregnancy: Some(Pregnant { progress: 0, max_progress: duration }),
            ..c
        }
    } else {
        c
    }
}

/// Resolves every wants-to-procreate intent into a pregnancy.
pub fn procreation_system(creatures: Vec<Creature>, cost: i64, duration: u32) -> (out: Vec<
    Creature,
>)
    requires
        0 <= cost <= 100000000,
        forall|i: int|
            0 <= i < creatures@.len() ==> cal_range((#[trigger] creatures@[i]).calories.current),
    ensures
        out@.len() == creatures@.len(),
        forall|i: int|
            0 <= i < out@.len() ==> #[trigger] out@[i] == spec_resolve_procreation(
                creatures@[i],
                cost as int,
                duration,
            ),
{
    let ghost orig = creatures@;
    let mut input = creatures;
    let mut out: Vec<Creature> = Vec::new();
    while input.len() > 0
        invariant
            0 <= cost <= 100000000,
            orig.len() == out@.len() + input@.len(),
            forall|j: int| 0 <= j < input@.len() ==> #[trigger] input@[j] == orig[out@.len() + j],
            forall|j: int|
                0 <= j < input@.len() ==> cal_range((#[trigger] input@[j]).calories.current),
            forall|j: int|
                0 <= j < out@.len() ==> #[trigger] out@[j] == spec_resolve_procreation(
                    orig[j],
                    cost as int,
                    duration,
                ),
        decreases input@.len(),
    {
        let mut c = input.remove(0);
        if c.goal == Some(Goal::WantsToProcreate) {
            c.calories.current = c.calories.current - cost;
            c.pregnancy = Some(
                Pregnant { progress: 0, max_progress: duration },
            );
            c.goal = None;
        }
        out.push(c);
    }
    out
}

pub open spec fn cal_range(v: i64) -> bool {
    crate::vitals::cal_in_range(v)
}

/// Where a newborn is placed: the first in-bounds cell probing north,
/// south, west, east in fixed order, or the mother's own cell.
pub open spec fn spec_spawn_pos(p: Position, w: int, h: int) -> Position {
    if p.y > 0 {
        Position { x: p.x, y: (p.y - 1) as i32 }
    } else if p.y < h - 1 {
        Position { x: p.x, y: (p.y + 1) as i32 }
    } else if p.x > 0 {
        Position { x: (p.x - 1) as i32, y: p.y }
    } else if p.x < w - 1 {
        Position { x: (p.x + 1) as i32, y: p.y }
    } else {
        p
    }
}

/// This tick's pregnancy advancement brings the record to term.
pub open spec fn spec_gives_birth(c: Creature) -> bool {
    match c.pregnancy {
        Some(g) => g.progress + 1 >= g.max_progress,
        None => false,
    }
}

/// A pregnancy record after one tick: progress advanced, and cleared on
/// reaching the required duration.
pub open spec fn spec_advance_pregnancy(c: Creature) -> Creature {
    match c.pregnancy {
        None => c,
        Some(g) => if g.progress + 1 >= g.max_progress {
            Creature { pregnancy: None, ..c }
        } else {
            Creature { pregnancy: Some(Pregnant { progress: (g.progress + 1) as u32, ..g }), ..c }
        },
    }
}

/// A newborn: half the species capacity, holding nothing.
pub open spec fn spec_newborn(id: u64, pos: Position, max: i64) -> Creature {
    Creature {
        id: id,
        pos: pos,
        calories: Calories { current: (max / 2) as i64, max: max },
        goal: None,
        travel: None,
        path: None,
        requires_at: None,
        outside_band: false,
        pregnancy: None,
    }
}

/// How many of `s` give birth this tick.
pub open spec fn spec_birth_count(s: Seq<Creature>) -> int
    decreases s.len(),
{
    if s.len() == 0 {
        0
    } else {
        spec_birth_count(s.drop_last()) + if spec_gives_birth(s.last()) {
            1int
        } else {
            0int
        }
    }
}

/// The newborns owed by `s`, in mother order, with identifiers handed out
/// from `id0` upward.
pub open spec fn spec_newborns(s: Seq<Creature>, id0: int, w: int, h: int, max: i64) -> Seq<
    Creature,
>
    decreases s.len(),
{
    if s.len() == 0 {
        Seq::empty()
    } else {
        spec_newborns(s.drop_last(), id0, w, h, max) + if spec_gives_birth(s.last()) {
            seq![
                spec_newborn(
                    (id0 + spec_birth_count(s.drop_last())) as u64,
                    spec_spawn_pos(s.last().pos, w, h),
                    max,
                ),
            ]
        } else {
            Seq::empty()
        }
    }
}

/// One newborn per record that comes to term.
pub proof fn lemma_newborn_count(s: Seq<Creature>, id0: int, w: int, h: int, max: i64)
    ensures
        spec_newborns(s, id0, w, h, max).len() == spec_birth_count(s),
        spec_birth_count(s) <= s.len(),
    decreases s.len(),
{
    if s.len() > 0 {
        lemma_newborn_count(s.drop_last(), id0, w, h, max);
    }
}

/// Advances every pregnancy by one tick; each record reaching its
/// duration spawns a newborn with half the species capacity on the first
/// in-bounds neighbor cell (no occupancy check) and is cleared. Newborns
/// are appended after all mothers, in mother order; the returned counter
/// is the next fresh identifier.
pub fn pregnancy_system(
    creatures: Vec<Creature>,
    next_id: u64,
    w: usize,
    h: usize,
    max_calories: i64,
) -> (out: (Vec<Creature>, u64))
    requires
        1 <= w <= 1000000,
        1 <= h <= 1000000,
        1 <= max_calories <= 100000000,
        next_id as int + creatures@.len() <= u64::MAX,
        forall|i: int|
            0 <= i < creatures@.len() ==> match (#[trigger] creatures@[i]).pregnancy {
                Some(g) => g.progress < 0x4000_0000,
                None => true,
            },
        forall|i: int|
            0 <= i < creatures@.len() ==> {
                let p = (#[trigger] creatures@[i]).pos;
                0 <= p.x < w && 0 <= p.y < h
            },
    ensures
        out.0@.len() == creatures@.len() + spec_birth_count(creatures@),
        forall|i: int|
            0 <= i < creatures@.len() ==> #[trigger] out.0@[i] == spec_advance_pregnancy(
                creatures@[i],
            ),
        out.0@.skip(creatures@.len() as int) == spec_newborns(
            creatures@,
            next_id as int,
            w as int,
            h as int,
            max_calories,
        ),
        out.1 == next_id as int + spec_birth_count(creatures@),
{
    let ghost orig = creatures@;
    let mut input = creatures;
    let mut out: Vec<Creature> = Vec::new();
    let mut babies: Vec<Creature> = Vec::new();
    let mut id_ctr: u64 = next_id;
    while input.len() > 0
        invariant
            1 <= w <= 1000000,
            1 <= h <= 1000000,
            1 <= max_calories <= 100000000,
            next_id as int + orig.len() <= u64::MAX,
            orig.len() == out@.len() + input@.len(),
            forall|j: int| 0 <= j < input@.len() ==> #[trigger] input@[j] == orig[out@.len() + j],
            forall|j: int|
                0 <= j < input@.len() ==> match (#[trigger] input@[j]).pregnancy {
                    Some(g) => g.progress < 0x4000_0000,
                    None => true,
                },
            forall|j: int|
                0 <= j < input@.len() ==> {
                    let p = (#[trigger] input@[j]).pos;
                    0 <= p.x < w && 0 <= p.y < h
                },
            forall|j: int|
                0 <= j < out@.len() ==> #[trigger] out@[j] == spec_advance_pregnancy(orig[j]),
            babies@ == spec_newborns(
                orig.take(out@.len() as int),
                next_id as int,
                w as int,
                h as int,
                max_calories,
            ),
            id_ctr == next_id + spec_birth_count(orig.take(out@.len() as int)),
            id_ctr <= next_id as int + out@.len(),
        decreases input@.len(),
    {
        let ghost k = out@.len() as int;
        let mut c = input.remove(0);
        let ghost pre = c;
        proof {
            assert(orig.take(k + 1).drop_last() =~= orig.take(k));
            assert(orig.take(k + 1).last() == pre);
        }
        match c.pregnancy {
            None => {},
            Some(g) => {
                if g.progress + 1 >= g.max_progress {
                    let pos = spawn_position(c.pos, w, h);
                    babies.push(
                        Creature {
                            id: id_ctr,
                            pos: pos,
                            calories: Calories { current: max_calories / 2, max: max_calories },
                            goal: None,
                            travel: None,
                            path: None,
                            requires_at: None,
                            outside_band: false,
                            pregnancy: None,
                        },
                    );
                    id_ctr = id_ctr + 1;
                    c.pregnancy = None;
                } else {
                    c.pregnancy = Some(Pregnant { progress: g.progress + 1, ..g });
                }
            },
        }
        out.push(c);
        proof {
            assert(out@[k] == spec_advance_pregnancy(pre));
            assert(babies@ =~= spec_newborns(
                orig.take(k + 1),
                next_id as int,
                w as int,
                h as int,
                max_calories,
            ));
        }
    }
    proof {
        assert(orig.take(orig.len() as int) =~= orig);
    }
    let total = out.len();
    let baby_count = babies.len();
    let ghost mothers = out@;
    let mut b = babies;
    while b.len() > 0
        invariant
            mothers.len() == total,
            total <= out@.len(),
            out@.len() + b@.len() == total + baby_count,
            out@.take(total as int) == mothers,
            out@.skip(total as int) + b@ == spec_newborns(
                orig,
                next_id as int,
                w as int,
                h as int,
                max_calories,
            ),
        decreases b@.len(),
    {
        let ghost b_old = b@;
        let ghost out_old = out@;
        let nb = b.remove(0);
        out.push(nb);
        proof {
            assert(out@.take(total as int) =~= out_old.take(total as int));
            assert(out@.skip(total as int) =~= out_old.skip(total as int).push(nb));
            assert(out_old.skip(total as int).push(nb) + b@ =~= out_old.skip(total as int)
                + b_old);
        }
    }
    proof {
        lemma_newborn_count(orig, next_id as int, w as int, h as int, max_calories);
        assert(out@.skip(total as int) + b@ =~= out@.skip(total as int));
        assert forall|i: int| 0 <= i < creatures@.len() implies #[trigger] out@[i]
            == spec_advance_pregnancy(creatures@[i]) by {
            assert(out@.take(total as int)[i] == mothers[i]);
        }
    }
    (out, id_ctr)
}

/// The first in-bounds neighbor for a newborn, probing north, south,
/// west, east in fixed order; the mother's own cell if none is.
fn spawn_position(p: Position, w: usize, h: usize) -> (r: Position)
    requires
        1 <= w <= 1000000,
        1 <= h <= 1000000,
        0 <= p.x < w,
        0 <= p.y < h,
    ensures
        r == spec_spawn_pos(p, w as int, h as int),
{
    if p.y > 0 {
        Position { x: p.x, y: p.y - 1 }
    } else if ((p.y + 1) as usize) < h {
        Position { x: p.x, y: p.y + 1 }
    } else if p.x > 0 {
        Position { x: p.x - 1, y: p.y }
    } else if ((p.x + 1) as usize) < w {
        Position { x: p.x + 1, y: p.y }
    } else {
        p
    }
}


/// Idempotence of pregnancy: as long as no record reaches its required
/// duration, the pass spawns no child at all; every record merely
/// advances by one tick and stays attached.
pub proof fn lemma_pregnancy_idempotent(s: Seq<Creature>, id0: int, w: int, h: int, max: i64)
    requires
        forall|i: int|
            0 <= i < s.len() ==> match (#[trigger] s[i]).pregnancy {
                Some(g) => g.progress + 1 < g.max_progress,
                None => true,
            },
    ensures
        spec_birth_count(s) == 0,
        spec_newborns(s, id0, w, h, max).len() == 0,
        forall|i: int|
            0 <= i < s.len() ==> match (#[trigger] s[i]).pregnancy {
                Some(g) => spec_advance_pregnancy(s[i]).pregnancy == Some(
                    Pregnant { progress: (g.progress + 1) as u32, max_progress: g.max_progress },
                ),
                None => spec_advance_pregnancy(s[i]).pregnancy is None,
            },
    decreases s.len(),
{
    lemma_newborn_count(s, id0, w, h, max);
    if s.len() > 0 {
        assert(!spec_gives_birth(s.last()));
        assert(forall|i: int|
            0 <= i < s.drop_last().len() ==> match (#[trigger] s.drop_last()[i]).pregnancy {
                Some(g) => g.progress + 1 < g.max_progress,
                None => true,
            });
        lemma_pregnancy_idempotent(s.drop_last(), id0, w, h, max);
    }
}


/// Nutrition of a plant spawned by propagation.
pub const PROPAGATED_NUTRIENTS: i64 = 20;

/// A freshly propagated plant is a valid offshoot of some existing
/// plant: same type, fixed nutrition, harvestable and edible, standing on
/// an empty in-bounds cell within one ring of its parent.
pub open spec fn spec_propagated_ok(
    newp: Plant,
    parents: Seq<Plant>,
    index: crate::spatial::SpatialGrid,
    w: int,
    h: int,
) -> bool {
    exists|pi: int|
        0 <= pi < parents.len() && {
            let par = #[trigger] parents[pi];
            &&& newp.plant_type == par.plant_type
            &&& newp.food.nutrition_value == PROPAGATED_NUTRIENTS
            &&& newp.harvestable
            &&& newp.edible
            &&& crate::feeding::spec_chebyshev(par.pos, newp.pos) <= 1
            &&& 0 <= newp.pos.x < w
            &&& 0 <= newp.pos.y < h
            &&& index.ids_at(newp.pos).len() == 0
        }
}

/// Propagates plants: each has one chance in a hundred to spawn an
/// offshoot on a uniformly chosen empty neighboring cell (if any exists,
/// judged against the spatial index). What comes back holds for every
/// random outcome: the existing plants unchanged, at most one offshoot
/// per plant, each a valid offshoot carrying the next fresh identifier.
pub fn plant_propogation_system(
    plants: Vec<Plant>,
    index: &crate::spatial::SpatialGrid,
    w: usize,
    h: usize,
    next_id: u64,
) -> (out: (Vec<Plant>, u64))
    requires
        1 <= w <= 1000000,
        1 <= h <= 1000000,
        next_id as int + plants@.len() <= u64::MAX,
        forall|i: int|
            0 <= i < plants@.len() ==> {
                let p = (#[trigger] plants@[i]).pos;
                0 <= p.x < w && 0 <= p.y < h
            },
    ensures
        plants@.len() <= out.0@.len() <= 2 * plants@.len(),
        out.0@.take(plants@.len() as int) == plants@,
        out.1 == next_id + out.0@.len() - plants@.len(),
        forall|k: int|
            plants@.len() <= k < out.0@.len() ==> spec_propagated_ok(
                #[trigger] out.0@[k],
                plants@,
                *index,
                w as int,
                h as int,
            ) && out.0@[k].id == next_id + (k - plants@.len()),
{
    let ghost orig = plants@;
    let n = plants.len();
    let mut out = plants;
    let mut id_ctr: u64 = next_id;
    let mut i: usize = 0;
    while i < n
        invariant
            1 <= w <= 1000000,
            1 <= h <= 1000000,
            i <= n,
            n <= out@.len(),
            n == orig.len(),
            next_id as int + n <= u64::MAX,
            id_ctr == next_id + out@.len() - n,
            id_ctr as int <= next_id as int + i,
            out@.len() <= n + i,
            out@.take(n as int) == orig,
            forall|j: int|
                0 <= j < n ==> {
                    let p = (#[trigger] orig[j]).pos;
                    0 <= p.x < w && 0 <= p.y < h
                },
            forall|k: int|
                n <= k < out@.len() ==> spec_propagated_ok(
                    #[trigger] out@[k],
                    orig,
                    *index,
                    w as int,
                    h as int,
                ) && out@[k].id == next_id + (k - n),
        decreases n - i,
    {
        let spawns = roll_below(100) == 0;
        if spawns {
            proof {
                assert(out@.take(n as int)[i as int] == out@[i as int]);
            }
            let parent_pos = out[i].pos;
            let parent_type = out[i].plant_type;
            let mut empties: Vec<Position> = Vec::new();
            let mut dx: i64 = -1;
            while dx <= 1
                invariant
                    1 <= w <= 1000000,
                    1 <= h <= 1000000,
                    0 <= parent_pos.x < w,
                    0 <= parent_pos.y < h,
                    -1 <= dx <= 2,
                    empties@.len() <= (dx + 1) * 3,
                    forall|e: int|
                        0 <= e < empties@.len() ==> {
                            let q = #[trigger] empties@[e];
                            &&& crate::feeding::spec_chebyshev(parent_pos, q) <= 1
                            &&& 0 <= q.x < w
                            &&& 0 <= q.y < h
                            &&& index.ids_at(q).len() == 0
                        },
                decreases 2 - dx,
            {
                let mut dy: i64 = -1;
                while dy <= 1
                    invariant
                        1 <= w <= 1000000,
                        1 <= h <= 1000000,
                        0 <= parent_pos.x < w,
                        0 <= parent_pos.y < h,
                        -1 <= dx <= 1,
                        -1 <= dy <= 2,
                        empties@.len() <= (dx + 1) * 3 + (dy + 1),
                        forall|e: int|
                            0 <= e < empties@.len() ==> {
                                let q = #[trigger] empties@[e];
                                &&& crate::feeding::spec_chebyshev(parent_pos, q) <= 1
                                &&& 0 <= q.x < w
                                &&& 0 <= q.y < h
                                &&& index.ids_at(q).len() == 0
                            },
                    decreases 2 - dy,
                {
                    let cx = parent_pos.x as i64 + dx;
                    let cy = parent_pos.y as i64 + dy;
                    if 0 <= cx && cx < w as i64 && 0 <= cy && cy < h as i64 {
                        let q = Position { x: cx as i32, y: cy as i32 };
                        match index.lookup(q) {
                            None => {
                                empties.push(q);
                            },
                            Some(ids) => {
                                if ids.len() == 0 {
                                    empties.push(q);
                                }
                            },
                        }
                    }
                    dy = dy + 1;
                }
                dx = dx + 1;
            }
            if empties.len() > 0 {
                proof {
                    assert(empties@.len() <= 9);
                }
                let pick = roll_below(empties.len() as u32) as usize;
                let q = empties[pick];
                let ghost before = out@;
                out.push(
                    Plant {
                        id: id_ctr,
                        pos: q,
                        plant_type: parent_type,
                        food: FoodSource { nutrition_value: PROPAGATED_NUTRIENTS },
                        harvestable: true,
                        edible: true,
                    },
                );
                id_ctr = id_ctr + 1;
                proof {
                    assert(out@.take(n as int) =~= before.take(n as int));
                    assert forall|k: int|
                        n <= k < out@.len() implies spec_propagated_ok(
                        #[trigger] out@[k],
                        orig,
                        *index,
                        w as int,
                        h as int,
                    ) && out@[k].id == next_id + (k - n) by {
                        if k < out@.len() - 1 {
                            assert(out@[k] == before[k]);
                        } else {
                            assert(out@[k].pos == q && orig[i as int].pos == parent_pos);
                        }
                    }
                }
            }
        }
        i = i + 1;
    }
    proof {
        assert(out@.take(n as int) =~= out@.take(n as int));
    }
    (out, id_ctr)
}

} // verus!
