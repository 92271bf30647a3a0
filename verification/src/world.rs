//! The simulation context: configuration, the world that owns every
//! entity, its well-formedness invariant, and the tick that runs each
//! subsystem to completion in fixed order.

use vstd::prelude::*;
use crate::band::{
    BandCenter,
    BandCenterMode,
    check_if_returned_to_band_system,
    return_to_band_system,
    territory_recall_system,
    update_band_center_system,
};
use crate::entities::{Calories, Creature, FoodSource, Goal, Plant, PlantType, Pregnant};
use crate::feeding::{find_food_system, perform_eat_system, spec_eat_pass, spec_eat_step,
    spec_surviving_plants, spec_vec_contains, search_inputs_ok};
use crate::grid::{GameGrid, Position};
use crate::motion::{
    action_failure_resolution_system,
    action_preconditions_system,
    pathfinding_system,
    perform_movement_system,
    spec_move_rel,
    spec_pathfind_rel,
};
use crate::pathfind::is_path;
use crate::planner::{
    goal_selection_system,
    idle_goal_selection_system,
    lemma_newborn_count,
    pregnancy_system,
    procreation_system,
    spec_birth_count,
    spec_newborn,
    spec_newborns,
    spec_spawn_pos,
};
use crate::spatial::{SpatialGrid, entity_seq, ids_at_spec, spatial_grid_system};
use crate::vitals::{
    BandCenterVisualizationEnabled,
    PopulationCount,
    TickCount,
    calorie_burn_system,
    death_system,
    population_counter_system,
    spec_survivors,
    tick_counter_system,
};

verus! {

/// The tunable economy of the simulation; `standard` matches the species
/// constants of the crate root.
#[derive(Clone, Copy, PartialEq, Eq, Structural, Debug)]
pub struct Config {
    pub move_cost: i64,
    pub live_cost: i64,
    pub work_cost: i64,
    pub pregnant_cost: i64,
    pub max_calories: i64,
    pub pregnancy_duration: u32,
    pub band_radius: i64,
}

impl Config {
    pub open spec fn wf(&self) -> bool {
        &&& 0 <= self.move_cost <= 100000000
        &&& 0 <= self.live_cost <= 100000000
        &&& 0 <= self.work_cost <= 100000000
        &&& 0 <= self.pregnant_cost <= 100000000
        &&& 1 <= self.max_calories <= 100000000
        &&& 1 <= self.pregnancy_duration <= 1000000
        &&& 0 <= self.band_radius <= 1000000
    }

    /// The standard species economy.
    pub fn standard() -> (r: Config)
        ensures
            r.wf(),
            r.move_cost == crate::MOVE_COST,
            r.live_cost == crate::LIVE_COST,
            r.work_cost == crate::WORK_COST,
            r.pregnant_cost == crate::PREGNANT_COST,
            r.max_calories == crate::HUMAN_MAX_CALORIES,
            r.pregnancy_duration == crate::HUMAN_PREGNANCY_DURATION,
            r.band_radius == crate::BAND_RADIUS,
    {
        Config {
            move_cost: crate::MOVE_COST,
            live_cost: crate::LIVE_COST,
            work_cost: crate::WORK_COST,
            pregnant_cost: crate::PREGNANT_COST,
            max_calories: crate::HUMAN_MAX_CALORIES,
            pregnancy_duration: crate::HUMAN_PREGNANCY_DURATION,
            band_radius: crate::BAND_RADIUS,
        }
    }
}

/// Per-creature well-formedness, with `slack` room below the one-calorie
/// floor for the costs already paid mid-tick.
pub open spec fn creature_ok(c: Creature, grid: GameGrid, slack: int) -> bool {
    &&& grid.spec_in_bounds(c.pos)
    &&& 1 <= c.calories.max <= 100000000
    &&& 1 - slack <= c.calories.current <= c.calories.max + 100000000
    &&& ((c.goal == Some(Goal::WantsToEat) || c.goal matches Some(Goal::Eat(_)))
        ==> c.calories.current < c.calories.max)
    &&& match c.goal {
        Some(Goal::Eat(a)) => a.progress < a.max_progress && a.max_progress <= 1000000,
        _ => true,
    }
    &&& (c.requires_at is Some ==> c.goal matches Some(Goal::Eat(_)))
    &&& match c.path {
        Some(ap) => ap.nodes@.len() >= 1 && forall|i: int|
            0 <= i < ap.nodes@.len() ==> grid.spec_in_bounds(#[trigger] ap.nodes@[i]),
        None => true,
    }
    &&& match c.pregnancy {
        Some(g) => g.progress < g.max_progress && g.max_progress <= 1000000,
        None => true,
    }
}

pub open spec fn plant_ok(p: Plant, grid: GameGrid) -> bool {
    &&& grid.spec_in_bounds(p.pos)
    &&& 0 <= p.food.nutrition_value <= 100000000
}

/// Identifier discipline: all entity identifiers are unique and below
/// the fresh-identifier counter.
pub open spec fn ids_ok(creatures: Seq<Creature>, plants: Seq<Plant>, next_id: u64) -> bool {
    &&& forall|i: int, j: int|
        0 <= i < creatures.len() && 0 <= j < creatures.len() && i != j ==> (
        #[trigger] creatures[i]).id != (#[trigger] creatures[j]).id
    &&& forall|i: int, j: int|
        0 <= i < plants.len() && 0 <= j < plants.len() && i != j ==> (#[trigger] plants[i]).id != (
        #[trigger] plants[j]).id
    &&& forall|i: int, j: int|
        0 <= i < creatures.len() && 0 <= j < plants.len() ==> (#[trigger] creatures[i]).id != (
        #[trigger] plants[j]).id
    &&& forall|i: int| 0 <= i < creatures.len() ==> (#[trigger] creatures[i]).id < next_id
    &&& forall|j: int| 0 <= j < plants.len() ==> (#[trigger] plants[j]).id < next_id
}

/// The simulation state: the terrain, every entity, the band anchor, the
/// per-tick spatial index, and the counters the presentation layer
/// reads. The simulation exclusively owns all of it.
pub struct World {
    pub grid: GameGrid,
    pub creatures: Vec<Creature>,
    pub plants: Vec<Plant>,
    pub next_id: u64,
    pub band_center: BandCenter,
    pub band_mode: BandCenterMode,
    pub index: SpatialGrid,
    pub tick_count: TickCount,
    pub population: PopulationCount,
    pub band_viz: BandCenterVisualizationEnabled,
    pub config: Config,
}

/// The between-tick invariant: a well-formed terrain and economy, every
/// creature and plant well formed with a full calorie floor, and clean
/// identifier discipline.
pub open spec fn wf_world(w: World) -> bool {
    &&& w.grid.wf()
    &&& w.config.wf()
    &&& forall|i: int|
        0 <= i < w.creatures@.len() ==> creature_ok(#[trigger] w.creatures@[i], w.grid, 0)
    &&& forall|j: int| 0 <= j < w.plants@.len() ==> plant_ok(#[trigger] w.plants@[j], w.grid)
    &&& ids_ok(w.creatures@, w.plants@, w.next_id)
}

/// Every pregnancy advanced by one tick.
pub open spec fn spec_advance_all(s: Seq<Creature>) -> Seq<Creature> {
    s.map_values(|c: Creature| crate::planner::spec_advance_pregnancy(c))
}

/// Every creature after paying the living cost.
pub open spec fn spec_burn_all(s: Seq<Creature>, live_cost: int) -> Seq<Creature> {
    s.map_values(|c: Creature| crate::vitals::spec_burn(c, live_cost))
}

/// The stages one tick passes through, spelled out: `stages` holds the
/// creature sequence after each in-place subsystem, in pipeline order
/// (recall, re-entry, planning, return-to-band, idle resolution under the
/// draws `rolls`, food targeting under the claim chain `chain`,
/// precondition enforcement, pathfinding with its `failures`, failure
/// recovery, movement with its `moved` list, eating, procreation), and
/// the closing pregnancy, burn and death steps link the last stage to the
/// output creatures, plants and fresh-identifier counter.
pub open spec fn spec_tick_stages(
    w: World,
    r: World,
    stages: Seq<Seq<Creature>>,
    rolls: Seq<int>,
    chain: Seq<Seq<u64>>,
    failures: Seq<crate::entities::NavigationFailed>,
    moved: Seq<u64>,
) -> bool {
    let center = crate::band::spec_band_center_after(w.creatures@, w.band_mode, w.band_center.0);
    let radius = w.config.band_radius;
    let wdim = w.grid.width();
    let hdim = w.grid.height();
    let n = w.creatures@.len() as int;
    &&& stages.len() == 12
    &&& forall|k: int| 0 <= k < 12 ==> (#[trigger] stages[k]).len() == n
    &&& forall|i: int|
        0 <= i < n ==> #[trigger] stages[0][i] == crate::band::spec_recall(
            w.creatures@[i],
            center,
            radius,
        )
    &&& forall|i: int|
        0 <= i < n ==> #[trigger] stages[1][i] == crate::band::spec_reentry(
            stages[0][i],
            center,
            radius,
        )
    &&& forall|i: int|
        0 <= i < n ==> #[trigger] stages[2][i] == crate::planner::spec_plan(
            stages[1][i],
            center,
            radius,
        )
    &&& forall|i: int|
        0 <= i < n ==> #[trigger] stages[3][i] == crate::band::spec_resolve_return(
            stages[2][i],
            center,
        )
    &&& rolls.len() == n
    &&& forall|i: int|
        0 <= i < n ==> 0 <= rolls[i] < 5 && #[trigger] stages[4][i]
            == crate::planner::spec_resolve_idle(stages[3][i], rolls[i], wdim, hdim)
    &&& chain.len() == n + 1
    &&& chain[0] == Seq::<u64>::empty()
    &&& forall|i: int|
        0 <= i < n ==> crate::feeding::spec_target_rel(
            stages[4][i],
            #[trigger] stages[5][i],
            w.plants@,
            chain[i],
        ) && chain[i + 1] == crate::feeding::spec_claims_after(stages[4][i], stages[5][i], chain[i])
    &&& forall|i: int|
        0 <= i < n ==> #[trigger] stages[6][i] == crate::motion::spec_enforce_precondition(
            stages[5][i],
        )
    &&& forall|i: int|
        0 <= i < n ==> spec_pathfind_rel(w.grid, stages[6][i], #[trigger] stages[7][i])
    &&& failures == crate::motion::spec_nav_failures(w.grid, stages[6])
    &&& forall|i: int|
        0 <= i < n ==> #[trigger] stages[8][i] == crate::motion::spec_recover(
            stages[7][i],
            crate::motion::spec_named_by_failure(failures, stages[7][i].id),
        )
    &&& forall|i: int|
        0 <= i < n ==> spec_move_rel(stages[8][i], #[trigger] stages[9][i], w.config.move_cost as int)
    &&& moved == crate::motion::spec_movers(stages[8])
    &&& {
        let pass = spec_eat_pass(
            stages[9],
            w.plants@,
            moved,
            Set::empty(),
            Set::empty(),
            w.config.work_cost as int,
        );
        &&& stages[10] == pass.0
        &&& r.plants@ == spec_surviving_plants(w.plants@, pass.2)
    }
    &&& forall|i: int|
        0 <= i < n ==> #[trigger] stages[11][i] == crate::planner::spec_resolve_procreation(
            stages[10][i],
            w.config.pregnant_cost as int,
            w.config.pregnancy_duration,
        )
    &&& {
        let mothers = spec_advance_all(stages[11]);
        let born = spec_newborns(
            stages[11],
            w.next_id as int,
            wdim,
            hdim,
            w.config.max_calories,
        );
        &&& r.creatures@ == spec_survivors(spec_burn_all(mothers + born, w.config.live_cost as int))
        &&& r.next_id == w.next_id + spec_birth_count(stages[11])
    }
}

/// The full tick relation: the output state is linked to the input by
/// the composed per-subsystem relations, for some admissible idle draws
/// and the claim chain, failure list, mover list and intermediate stages
/// they induce.
pub open spec fn spec_tick_rel(w: World, r: World) -> bool {
    exists|
        stages: Seq<Seq<Creature>>,
        rolls: Seq<int>,
        chain: Seq<Seq<u64>>,
        failures: Seq<crate::entities::NavigationFailed>,
        moved: Seq<u64>,
    |
        spec_tick_stages(w, r, stages, rolls, chain, failures, moved)
}

/// A freshly rebuilt index, together with the identifier discipline,
/// meets everything the ring search asks of its inputs.
pub proof fn lemma_search_inputs(
    index: SpatialGrid,
    cs: Seq<Creature>,
    ps: Seq<Plant>,
    next_id: u64,
    grid: GameGrid,
)
    requires
        forall|p: Position|
            0 <= p.x && 0 <= p.y ==> #[trigger] index.ids_at(p) == ids_at_spec(
                entity_seq(cs, ps),
                p,
            ),
        ids_ok(cs, ps, next_id),
        forall|j: int| 0 <= j < ps.len() ==> plant_ok(#[trigger] ps[j], grid),
    ensures
        search_inputs_ok(index, ps, entity_seq(cs, ps)),
{
    let entities = entity_seq(cs, ps);
    assert forall|pi: int| 0 <= pi < ps.len() implies exists|j: int|
        0 <= j < entities.len() && entities[j] == ((#[trigger] ps[pi]).id, ps[pi].pos) by {
        assert(entities[cs.len() + pi] == (ps[pi].id, ps[pi].pos));
    }
    assert forall|j: int, pi: int|
        0 <= j < entities.len() && 0 <= pi < ps.len() && (#[trigger] entities[j]).0 == (
        #[trigger] ps[pi]).id implies entities[j].1 == ps[pi].pos by {
        if j < cs.len() {
            assert(entities[j] == (cs[j].id, cs[j].pos));
            assert(cs[j].id != ps[pi].id);
        } else {
            assert(entities[j] == (ps[j - cs.len()].id, ps[j - cs.len()].pos));
            if j - cs.len() != pi {
                assert(ps[j - cs.len()].id != ps[pi].id);
            }
        }
    }
    assert(crate::feeding::plants_in_entities(ps, entities));
    assert(crate::feeding::plant_ids_exclusive(ps, entities));
    assert(forall|pi: int|
        0 <= pi < ps.len() ==> 0 <= (#[trigger] ps[pi]).pos.x && 0 <= ps[pi].pos.y);
    assert(forall|pi: int, pj: int|
        0 <= pi < ps.len() && 0 <= pj < ps.len() && pi != pj ==> (#[trigger] ps[pi]).id != (
        #[trigger] ps[pj]).id);
}

/// One eat step keeps a creature well formed (with one work cost more of
/// slack) and its identity.
pub proof fn lemma_eat_step_ok(
    c: Creature,
    plants: Seq<Plant>,
    moved: Seq<u64>,
    claimed: Set<u64>,
    eaten: Set<u64>,
    work: int,
    grid: GameGrid,
    slack: int,
)
    requires
        creature_ok(c, grid, slack),
        0 <= slack <= 1000000000,
        0 <= work <= 100000000,
        forall|pi: int| 0 <= pi < plants.len() ==> plant_ok(#[trigger] plants[pi], grid),
    ensures
        creature_ok(spec_eat_step(c, plants, moved, claimed, eaten, work).0, grid, slack
            + 100000000),
        spec_eat_step(c, plants, moved, claimed, eaten, work).0.id == c.id,
{
    let d = spec_eat_step(c, plants, moved, claimed, eaten, work).0;
    match c.goal {
        Some(Goal::Eat(a)) => {
            if c.path is None && !spec_vec_contains(moved, c.id) && crate::feeding::spec_target_exists(
                plants,
                a.target_entity,
            ) {
                let pi = crate::feeding::spec_target_idx(plants, a.target_entity);
                assert(0 <= pi < plants.len() && plants[pi].id == a.target_entity
                    && crate::feeding::spec_is_food(plants[pi]));
                assert(plant_ok(plants[pi], grid));
                let p = plants[pi];
                if c.pos == p.pos {
                    if claimed.contains(a.target_entity) {
                        assert(creature_ok(d, grid, slack + 100000000));
                    } else if a.progress + 1 >= a.max_progress {
                        assert(d.calories.current == c.calories.current - work
                            + p.food.nutrition_value);
                        assert(c.calories.current < c.calories.max);
                        assert(creature_ok(d, grid, slack + 100000000));
                    } else {
                        assert(creature_ok(d, grid, slack + 100000000));
                    }
                } else {
                    assert(creature_ok(d, grid, slack + 100000000));
                }
            } else {
                assert(creature_ok(d, grid, slack + 100000000));
            }
        },
        _ => {
            assert(d == c);
            assert(creature_ok(d, grid, slack + 100000000));
        },
    }
}

/// A whole eat pass keeps every creature well formed and in place.
pub proof fn lemma_eat_pass_ok(
    s: Seq<Creature>,
    plants: Seq<Plant>,
    moved: Seq<u64>,
    claimed: Set<u64>,
    eaten: Set<u64>,
    work: int,
    grid: GameGrid,
    slack: int,
)
    requires
        forall|j: int| 0 <= j < s.len() ==> creature_ok(#[trigger] s[j], grid, slack),
        0 <= slack <= 1000000000,
        0 <= work <= 100000000,
        forall|pi: int| 0 <= pi < plants.len() ==> plant_ok(#[trigger] plants[pi], grid),
    ensures
        spec_eat_pass(s, plants, moved, claimed, eaten, work).0.len() == s.len(),
        forall|i: int|
            0 <= i < s.len() ==> creature_ok(
                #[trigger] spec_eat_pass(s, plants, moved, claimed, eaten, work).0[i],
                grid,
                slack + 100000000,
            ) && spec_eat_pass(s, plants, moved, claimed, eaten, work).0[i].id == s[i].id,
    decreases s.len(),
{
    if s.len() > 0 {
        let step = spec_eat_step(s[0], plants, moved, claimed, eaten, work);
        lemma_eat_step_ok(s[0], plants, moved, claimed, eaten, work, grid, slack);
        assert(forall|j: int| 0 <= j < s.skip(1).len() ==> creature_ok(
            #[trigger] s.skip(1)[j],
            grid,
            slack,
        ));
        lemma_eat_pass_ok(s.skip(1), plants, moved, step.1, step.2, work, grid, slack);
        let pass = spec_eat_pass(s, plants, moved, claimed, eaten, work);
        let rest = spec_eat_pass(s.skip(1), plants, moved, step.1, step.2, work);
        assert forall|i: int|
            0 <= i < s.len() implies creature_ok(#[trigger] pass.0[i], grid, slack + 100000000)
            && pass.0[i].id == s[i].id by {
            if i == 0 {
                assert(pass.0[0] == step.0);
            } else {
                assert(pass.0[i] == rest.0[i - 1]);
                assert(s.skip(1)[i - 1] == s[i]);
            }
        }
    }
}

/// Newborns carry consecutive fresh identifiers and are well formed.
pub proof fn lemma_newborns_props(
    s: Seq<Creature>,
    id0: int,
    w: int,
    h: int,
    max: i64,
    grid: GameGrid,
    slack: int,
)
    requires
        grid.wf(),
        w == grid.width(),
        h == grid.height(),
        1 <= max <= 100000000,
        slack >= 1,
        0 <= id0,
        id0 + s.len() <= u64::MAX,
        forall|j: int| 0 <= j < s.len() ==> grid.spec_in_bounds((#[trigger] s[j]).pos),
    ensures
        spec_newborns(s, id0, w, h, max).len() == spec_birth_count(s),
        forall|k: int|
            0 <= k < spec_newborns(s, id0, w, h, max).len() ==> (#[trigger] spec_newborns(
                s,
                id0,
                w,
                h,
                max,
            )[k]).id == id0 + k && creature_ok(spec_newborns(s, id0, w, h, max)[k], grid, slack),
    decreases s.len(),
{
    lemma_newborn_count(s, id0, w, h, max);
    if s.len() > 0 {
        lemma_newborn_count(s.drop_last(), id0, w, h, max);
        assert(forall|j: int| 0 <= j < s.drop_last().len() ==> grid.spec_in_bounds(
            (#[trigger] s.drop_last()[j]).pos,
        ));
        lemma_newborns_props(s.drop_last(), id0, w, h, max, grid, slack);
        let all = spec_newborns(s, id0, w, h, max);
        let pre = spec_newborns(s.drop_last(), id0, w, h, max);
        assert forall|k: int|
            0 <= k < all.len() implies (#[trigger] all[k]).id == id0 + k && creature_ok(
            all[k],
            grid,
            slack,
        ) by {
            if k < pre.len() {
                assert(all[k] == pre[k]);
            } else {
                let mother = s.last();
                assert(all[k] == spec_newborn(
                    (id0 + spec_birth_count(s.drop_last())) as u64,
                    spec_spawn_pos(mother.pos, w, h),
                    max,
                ));
                assert(grid.spec_in_bounds(mother.pos));
                assert(grid.spec_in_bounds(spec_spawn_pos(mother.pos, w, h)));
            }
        }
    }
}

/// Every survivor of the death pass is one of the original creatures,
/// with calories above zero.
pub proof fn lemma_survivors_props(s: Seq<Creature>)
    ensures
        spec_survivors(s).len() <= s.len(),
        forall|k: int|
            0 <= k < spec_survivors(s).len() ==> exists|j: int|
                0 <= j < s.len() && #[trigger] spec_survivors(s)[k] == s[j]
                    && s[j].calories.current > 0,
    decreases s.len(),
{
    if s.len() > 0 {
        lemma_survivors_props(s.drop_last());
        let all = spec_survivors(s);
        let pre = spec_survivors(s.drop_last());
        assert forall|k: int|
            0 <= k < all.len() implies exists|j: int|
            0 <= j < s.len() && #[trigger] all[k] == s[j] && s[j].calories.current > 0 by {
            if k < pre.len() {
                assert(all[k] == pre[k]);
                let j = choose|j: int|
                    0 <= j < s.drop_last().len() && pre[k] == s.drop_last()[j]
                        && s.drop_last()[j].calories.current > 0;
                assert(all[k] == s[j] && s[j].calories.current > 0);
            } else {
                assert(all[k] == s.last() && s.last().calories.current > 0);
                assert(all[k] == s[s.len() - 1]);
            }
        }
    }
}

/// The death pass keeps identifiers pairwise distinct.
pub proof fn lemma_survivors_unique(s: Seq<Creature>)
    requires
        forall|i: int, j: int|
            0 <= i < s.len() && 0 <= j < s.len() && i != j ==> (#[trigger] s[i]).id != (
            #[trigger] s[j]).id,
    ensures
        forall|k1: int, k2: int|
            0 <= k1 < spec_survivors(s).len() && 0 <= k2 < spec_survivors(s).len() && k1 != k2
                ==> (#[trigger] spec_survivors(s)[k1]).id != (#[trigger] spec_survivors(s)[k2]).id,
    decreases s.len(),
{
    if s.len() > 0 {
        assert(forall|i: int, j: int|
            0 <= i < s.drop_last().len() && 0 <= j < s.drop_last().len() && i != j ==> (
            #[trigger] s.drop_last()[i]).id != (#[trigger] s.drop_last()[j]).id);
        lemma_survivors_unique(s.drop_last());
        lemma_survivors_props(s.drop_last());
        let all = spec_survivors(s);
        let pre = spec_survivors(s.drop_last());
        assert forall|k1: int, k2: int|
            0 <= k1 < all.len() && 0 <= k2 < all.len() && k1 != k2 implies (
        #[trigger] all[k1]).id != (#[trigger] all[k2]).id by {
            if k1 < pre.len() && k2 < pre.len() {
                assert(all[k1] == pre[k1] && all[k2] == pre[k2]);
            } else {
                let (ka, kb) = if k1 < k2 {
                    (k1, k2)
                } else {
                    (k2, k1)
                };
                assert(kb >= pre.len() && all.len() == pre.len() + 1);
                assert(all[kb] == s.last());
                assert(all[ka] == pre[ka]);
                let j = choose|j: int|
                    0 <= j < s.drop_last().len() && pre[ka] == s.drop_last()[j]
                        && s.drop_last()[j].calories.current > 0;
                assert(pre[ka] == s[j] && j < s.len() - 1);
                assert(s[j].id != s[s.len() - 1].id);
            }
        }
    }
}

/// Every surviving plant is one of the original plants.
pub proof fn lemma_surviving_plants_props(plants: Seq<Plant>, eaten: Set<u64>)
    ensures
        spec_surviving_plants(plants, eaten).len() <= plants.len(),
        forall|k: int|
            0 <= k < spec_surviving_plants(plants, eaten).len() ==> exists|j: int|
                0 <= j < plants.len() && #[trigger] spec_surviving_plants(plants, eaten)[k]
                    == plants[j],
    decreases plants.len(),
{
    if plants.len() > 0 {
        lemma_surviving_plants_props(plants.drop_last(), eaten);
        let all = spec_surviving_plants(plants, eaten);
        let pre = spec_surviving_plants(plants.drop_last(), eaten);
        assert forall|k: int|
            0 <= k < all.len() implies exists|j: int|
            0 <= j < plants.len() && #[trigger] all[k] == plants[j] by {
            if k < pre.len() {
                assert(all[k] == pre[k]);
                let j = choose|j: int|
                    0 <= j < plants.drop_last().len() && pre[k] == plants.drop_last()[j];
                assert(all[k] == plants[j]);
            } else {
                assert(all[k] == plants[plants.len() - 1]);
            }
        }
    }
}


/// Assembles the facts the tick body accumulates, one per subsystem,
/// into the single tick relation.
#[verifier::rlimit(100)]
proof fn lemma_assemble_tick(
    w: World,
    r: World,
    g1: Seq<Creature>,
    g2: Seq<Creature>,
    g3: Seq<Creature>,
    g4: Seq<Creature>,
    g5: Seq<Creature>,
    g6: Seq<Creature>,
    g7: Seq<Creature>,
    g8: Seq<Creature>,
    g9: Seq<Creature>,
    g10: Seq<Creature>,
    g11: Seq<Creature>,
    g12: Seq<Creature>,
    g13: Seq<Creature>,
    g14: Seq<Creature>,
    rolls: Seq<int>,
    chain: Seq<Seq<u64>>,
    failures: Seq<crate::entities::NavigationFailed>,
    moved: Seq<u64>,
    center: Position,
    wdim: int,
    hdim: int,
)
    requires
        center == crate::band::spec_band_center_after(w.creatures@, w.band_mode, w.band_center.0),
        wdim == w.grid.width(),
        hdim == w.grid.height(),
        g1.len() == w.creatures@.len(),
        g2.len() == g1.len(),
        g3.len() == g2.len(),
        g4.len() == g3.len(),
        g5.len() == g4.len(),
        g6.len() == g5.len(),
        g7.len() == g6.len(),
        g8.len() == g7.len(),
        g9.len() == g8.len(),
        g10.len() == g9.len(),
        g11.len() == g10.len(),
        g12.len() == g11.len(),
        forall|i: int|
            0 <= i < g1.len() ==> #[trigger] g1[i] == crate::band::spec_recall(
                w.creatures@[i],
                center,
                w.config.band_radius,
            ),
        forall|i: int|
            0 <= i < g2.len() ==> #[trigger] g2[i] == crate::band::spec_reentry(
                g1[i],
                center,
                w.config.band_radius,
            ),
        forall|i: int|
            0 <= i < g3.len() ==> #[trigger] g3[i] == crate::planner::spec_plan(
                g2[i],
                center,
                w.config.band_radius,
            ),
        forall|i: int|
            0 <= i < g4.len() ==> #[trigger] g4[i] == crate::band::spec_resolve_return(
                g3[i],
                center,
            ),
        rolls.len() == g5.len(),
        forall|i: int|
            0 <= i < g5.len() ==> 0 <= rolls[i] < 5 && #[trigger] g5[i]
                == crate::planner::spec_resolve_idle(g4[i], rolls[i], wdim, hdim),
        chain.len() == g6.len() + 1,
        chain[0] == Seq::<u64>::empty(),
        forall|i: int|
            0 <= i < g6.len() ==> crate::feeding::spec_target_rel(
                g5[i],
                #[trigger] g6[i],
                w.plants@,
                chain[i],
            ) && chain[i + 1] == crate::feeding::spec_claims_after(g5[i], g6[i], chain[i]),
        forall|i: int|
            0 <= i < g7.len() ==> #[trigger] g7[i] == crate::motion::spec_enforce_precondition(
                g6[i],
            ),
        forall|i: int| 0 <= i < g8.len() ==> spec_pathfind_rel(w.grid, g7[i], #[trigger] g8[i]),
        failures == crate::motion::spec_nav_failures(w.grid, g7),
        forall|i: int|
            0 <= i < g9.len() ==> #[trigger] g9[i] == crate::motion::spec_recover(
                g8[i],
                crate::motion::spec_named_by_failure(failures, g8[i].id),
            ),
        forall|i: int|
            0 <= i < g10.len() ==> spec_move_rel(g9[i], #[trigger] g10[i], w.config.move_cost as int),
        moved == crate::motion::spec_movers(g9),
        g11 == spec_eat_pass(
            g10,
            w.plants@,
            moved,
            Set::empty(),
            Set::empty(),
            w.config.work_cost as int,
        ).0,
        r.plants@ == spec_surviving_plants(
            w.plants@,
            spec_eat_pass(
                g10,
                w.plants@,
                moved,
                Set::empty(),
                Set::empty(),
                w.config.work_cost as int,
            ).2,
        ),
        forall|i: int|
            0 <= i < g12.len() ==> #[trigger] g12[i] == crate::planner::spec_resolve_procreation(
                g11[i],
                w.config.pregnant_cost as int,
                w.config.pregnancy_duration,
            ),
        g13.len() == g12.len() + spec_birth_count(g12),
        forall|i: int|
            0 <= i < g12.len() ==> #[trigger] g13[i] == crate::planner::spec_advance_pregnancy(
                g12[i],
            ),
        g13.skip(g12.len() as int) == spec_newborns(
            g12,
            w.next_id as int,
            wdim,
            hdim,
            w.config.max_calories,
        ),
        g14.len() == g13.len(),
        forall|i: int|
            0 <= i < g14.len() ==> #[trigger] g14[i] == crate::vitals::spec_burn(
                g13[i],
                w.config.live_cost as int,
            ),
        r.creatures@ == spec_survivors(g14),
        r.next_id == w.next_id + spec_birth_count(g12),
    ensures
        spec_tick_rel(w, r),
{
    let stages = seq![g1, g2, g3, g4, g5, g6, g7, g8, g9, g10, g11, g12];
    let born = spec_newborns(g12, w.next_id as int, wdim, hdim, w.config.max_calories);
    crate::planner::lemma_newborn_count(g12, w.next_id as int, wdim, hdim, w.config.max_calories);
    assert(g13 =~= spec_advance_all(g12) + born);
    assert(g14 =~= spec_burn_all(spec_advance_all(g12) + born, w.config.live_cost as int));
    assert(spec_tick_stages(w, r, stages, rolls, chain, failures, moved));
    assert(spec_tick_rel(w, r));
}

/// Runs one full simulation tick, each subsystem to completion before
/// the next: rebuild the spatial index; update the band coordinator
/// (anchor, recall, re-entry); let the planner assign intents; resolve
/// intents into actions (return-to-band, idle wander, food targeting
/// with per-tick claims); enforce positional preconditions; compute
/// paths and recover from navigation failures; advance movement; resolve
/// eating, procreation and pregnancies; apply the living cost; destroy
/// the starved; and refresh the counters.
///
/// The well-formedness invariant holds again when the tick is over, so
/// ticks chain indefinitely.
#[verifier::rlimit(100)]
pub fn tick(w: World) -> (r: World)
    requires
        wf_world(w),
        w.tick_count.0 < u64::MAX,
        w.next_id as int + w.creatures@.len() <= u64::MAX,
    ensures
        wf_world(r),
        r.grid == w.grid,
        r.config == w.config,
        r.band_mode == w.band_mode,
        r.tick_count.0 == w.tick_count.0 + 1,
        r.population.0 == r.creatures@.len(),
        spec_tick_rel(w, r),
        r.band_center.0 == crate::band::spec_band_center_after(
            w.creatures@,
            w.band_mode,
            w.band_center.0,
        ),
        forall|p: Position|
            0 <= p.x && 0 <= p.y ==> #[trigger] r.index.ids_at(p) == ids_at_spec(
                entity_seq(w.creatures@, w.plants@),
                p,
            ),
{
    let World {
        grid,
        mut creatures,
        mut plants,
        next_id,
        mut band_center,
        band_mode,
        mut index,
        mut tick_count,
        mut population,
        band_viz,
        config,
    } = w;
    let ghost g0 = creatures@;
    let ghost p0 = plants@;

    // Spatial index: rebuilt from ground truth before anything reads it.
    spatial_grid_system(&mut index, &creatures, &plants);
    let ghost entities = entity_seq(g0, p0);
    proof {
        lemma_search_inputs(index, g0, p0, next_id, grid);
        assert(search_inputs_ok(index, p0, entities));
    }

    // Band coordinator: anchor update, recall of strays, re-entry.
    update_band_center_system(&creatures, &band_mode, &mut band_center);
    let center = band_center.0;
    let radius = config.band_radius;

    creatures = territory_recall_system(creatures, center, radius);
    let ghost g1 = creatures@;
    proof {
        assert forall|i: int| 0 <= i < g1.len() implies creature_ok(#[trigger] g1[i], grid, 0)
            && g1[i].id == g0[i].id by {
            assert(g1[i] == crate::band::spec_recall(g0[i], center, radius));
        }
    }

    creatures = check_if_returned_to_band_system(creatures, center, radius);
    let ghost g2 = creatures@;
    proof {
        assert forall|i: int| 0 <= i < g2.len() implies creature_ok(#[trigger] g2[i], grid, 0)
            && g2[i].id == g0[i].id by {
            assert(g2[i] == crate::band::spec_reentry(g1[i], center, radius));
        }
    }

    // Goal planner.
    creatures = goal_selection_system(creatures, center, radius);
    let ghost g3 = creatures@;
    proof {
        assert forall|i: int| 0 <= i < g3.len() implies creature_ok(#[trigger] g3[i], grid, 0)
            && g3[i].id == g0[i].id by {
            assert(g3[i] == crate::planner::spec_plan(g2[i], center, radius));
            assert(g2[i].calories.max / 2 <= g2[i].calories.max);
        }
    }

    // Intent resolvers.
    creatures = return_to_band_system(creatures, center);
    let ghost g4 = creatures@;
    proof {
        assert forall|i: int| 0 <= i < g4.len() implies creature_ok(#[trigger] g4[i], grid, 0)
            && g4[i].id == g0[i].id by {
            assert(g4[i] == crate::band::spec_resolve_return(g3[i], center));
        }
    }

    let wdim = grid.exec_width();
    let hdim = grid.exec_height();
    let idle_out = idle_goal_selection_system(creatures, wdim, hdim);
    creatures = idle_out.0;
    let ghost g5 = creatures@;
    proof {
        let rolls = idle_out.1@;
        assert forall|i: int| 0 <= i < g5.len() implies creature_ok(#[trigger] g5[i], grid, 0)
            && g5[i].id == g0[i].id by {
            assert(g5[i] == crate::planner::spec_resolve_idle(
                g4[i],
                rolls[i],
                wdim as int,
                hdim as int,
            ));
        }
    }

    let food_out = find_food_system(creatures, &plants, &index, Ghost(entities));
    creatures = food_out.0;
    let ghost g6 = creatures@;
    proof {
        let chain = food_out.1@;
        assert forall|i: int| 0 <= i < g6.len() implies creature_ok(#[trigger] g6[i], grid, 0)
            && g6[i].id == g0[i].id by {
            assert(crate::feeding::spec_target_rel(g5[i], g6[i], p0, chain[i]));
        }
    }

    // Positional preconditions, pathfinding, failure recovery.
    creatures = action_preconditions_system(creatures);
    let ghost g7 = creatures@;
    proof {
        assert forall|i: int| 0 <= i < g7.len() implies creature_ok(#[trigger] g7[i], grid, 0)
            && g7[i].id == g0[i].id by {
            assert(g7[i] == crate::motion::spec_enforce_precondition(g6[i]));
        }
    }

    let path_out = pathfinding_system(creatures, &grid);
    creatures = path_out.0;
    let failures = path_out.1;
    let ghost g8 = creatures@;
    proof {
        assert forall|i: int| 0 <= i < g8.len() implies creature_ok(#[trigger] g8[i], grid, 0)
            && g8[i].id == g0[i].id by {
            assert(spec_pathfind_rel(grid, g7[i], g8[i]));
            match g7[i].travel {
                Some(t) => {
                    if g7[i].path is None && g7[i].pos != t.destination && (exists|q: Seq<Position>|
                        is_path(grid, q, g7[i].pos, t.destination)) {
                        match g8[i].path {
                            Some(ap) => {
                                let full = seq![g7[i].pos] + ap.nodes@;
                                assert(is_path(grid, full, g7[i].pos, t.destination));
                                assert forall|k: int|
                                    0 <= k < ap.nodes@.len() implies grid.spec_in_bounds(
                                    #[trigger] ap.nodes@[k],
                                ) by {
                                    assert(crate::pathfind::valid_step(grid, full[k], full[k + 1]));
                                    assert(full[k + 1] == ap.nodes@[k]);
                                }
                            },
                            None => {},
                        }
                    }
                },
                None => {},
            }
        }
    }

    creatures = action_failure_resolution_system(creatures, &failures);
    let ghost g9 = creatures@;
    proof {
        assert forall|i: int| 0 <= i < g9.len() implies creature_ok(#[trigger] g9[i], grid, 0)
            && g9[i].id == g0[i].id by {
            assert(g9[i] == crate::motion::spec_recover(
                g8[i],
                crate::motion::spec_named_by_failure(failures@, g8[i].id),
            ));
        }
    }

    // Movement.
    let move_out = perform_movement_system(creatures, config.move_cost);
    creatures = move_out.0;
    let moved = move_out.1;
    let ghost g10 = creatures@;
    proof {
        assert forall|i: int| 0 <= i < g10.len() implies creature_ok(
            #[trigger] g10[i],
            grid,
            100000000,
        ) && g10[i].id == g0[i].id by {
            assert(spec_move_rel(g9[i], g10[i], config.move_cost as int));
        }
    }

    // Eating.
    let eat_out = perform_eat_system(creatures, plants, &moved, config.work_cost);
    creatures = eat_out.0;
    plants = eat_out.1;
    let ghost g11 = creatures@;
    let ghost p1 = plants@;
    let ghost eaten = spec_eat_pass(
        g10,
        p0,
        moved@,
        Set::empty(),
        Set::empty(),
        config.work_cost as int,
    ).2;
    proof {
        lemma_eat_pass_ok(
            g10,
            p0,
            moved@,
            Set::empty(),
            Set::empty(),
            config.work_cost as int,
            grid,
            100000000,
        );
        assert(g11 == spec_eat_pass(
            g10,
            p0,
            moved@,
            Set::empty(),
            Set::empty(),
            config.work_cost as int,
        ).0);
        assert forall|i: int| 0 <= i < g11.len() implies creature_ok(
            #[trigger] g11[i],
            grid,
            200000000,
        ) && g11[i].id == g0[i].id by {}
        lemma_surviving_plants_props(p0, eaten);
        assert forall|j: int| 0 <= j < p1.len() implies plant_ok(#[trigger] p1[j], grid) by {
            let j2 = choose|j2: int| 0 <= j2 < p0.len() && p1[j] == p0[j2];
        }
    }

    // Procreation and pregnancy.
    creatures = procreation_system(creatures, config.pregnant_cost, config.pregnancy_duration);
    let ghost g12 = creatures@;
    proof {
        assert forall|i: int| 0 <= i < g12.len() implies creature_ok(
            #[trigger] g12[i],
            grid,
            300000000,
        ) && g12[i].id == g0[i].id by {
            assert(g12[i] == crate::planner::spec_resolve_procreation(
                g11[i],
                config.pregnant_cost as int,
                config.pregnancy_duration,
            ));
        }
    }

    let preg_out = pregnancy_system(creatures, next_id, wdim, hdim, config.max_calories);
    creatures = preg_out.0;
    let next_id2 = preg_out.1;
    let ghost g13 = creatures@;
    let ghost babies = spec_newborns(
        g12,
        next_id as int,
        wdim as int,
        hdim as int,
        config.max_calories,
    );
    proof {
        lemma_newborns_props(
            g12,
            next_id as int,
            wdim as int,
            hdim as int,
            config.max_calories,
            grid,
            300000000,
        );
        assert(g13.skip(g12.len() as int) == babies);
        assert forall|i: int| 0 <= i < g13.len() implies creature_ok(
            #[trigger] g13[i],
            grid,
            300000000,
        ) by {
            if i < g12.len() {
                assert(g13[i] == crate::planner::spec_advance_pregnancy(g12[i]));
            } else {
                assert(g13[i] == babies[i - g12.len()]);
            }
        }
        assert forall|i: int, j: int|
            0 <= i < g13.len() && 0 <= j < g13.len() && i != j implies (#[trigger] g13[i]).id != (
        #[trigger] g13[j]).id by {
            if i < g12.len() {
                assert(g13[i] == crate::planner::spec_advance_pregnancy(g12[i]));
                assert(g13[i].id == g0[i].id);
            } else {
                assert(g13[i] == babies[i - g12.len()]);
                assert(g13[i].id == next_id + (i - g12.len()));
            }
            if j < g12.len() {
                assert(g13[j] == crate::planner::spec_advance_pregnancy(g12[j]));
                assert(g13[j].id == g0[j].id);
            } else {
                assert(g13[j] == babies[j - g12.len()]);
                assert(g13[j].id == next_id + (j - g12.len()));
            }
        }
        assert forall|i: int| 0 <= i < g13.len() implies (#[trigger] g13[i]).id < next_id2 by {
            if i < g12.len() {
                assert(g13[i] == crate::planner::spec_advance_pregnancy(g12[i]));
                assert(g13[i].id == g0[i].id);
            } else {
                assert(g13[i] == babies[i - g12.len()]);
            }
        }
        assert forall|i: int, j: int|
            0 <= i < g13.len() && 0 <= j < p1.len() implies (#[trigger] g13[i]).id != (
        #[trigger] p1[j]).id by {
            let j2 = choose|j2: int| 0 <= j2 < p0.len() && p1[j] == p0[j2];
            if i < g12.len() {
                assert(g13[i] == crate::planner::spec_advance_pregnancy(g12[i]));
                assert(g13[i].id == g0[i].id);
            } else {
                assert(g13[i] == babies[i - g12.len()]);
            }
        }
    }

    // Vital economy and death.
    creatures = calorie_burn_system(creatures, config.live_cost);
    let ghost g14 = creatures@;
    proof {
        assert forall|i: int| 0 <= i < g14.len() implies creature_ok(
            #[trigger] g14[i],
            grid,
            400000000,
        ) && g14[i].id == g13[i].id by {
            assert(g14[i] == crate::vitals::spec_burn(g13[i], config.live_cost as int));
        }
    }

    creatures = death_system(creatures);
    let ghost g15 = creatures@;
    proof {
        lemma_survivors_props(g14);
        lemma_survivors_unique(g14);
        assert forall|i: int| 0 <= i < g15.len() implies creature_ok(#[trigger] g15[i], grid, 0) by {
            let j = choose|j: int|
                0 <= j < g14.len() && g15[i] == g14[j] && g14[j].calories.current > 0;
        }
        assert forall|i: int| 0 <= i < g15.len() implies (#[trigger] g15[i]).id < next_id2 by {
            let j = choose|j: int|
                0 <= j < g14.len() && g15[i] == g14[j] && g14[j].calories.current > 0;
        }
        assert forall|i: int, j: int|
            0 <= i < g15.len() && 0 <= j < p1.len() implies (#[trigger] g15[i]).id != (
        #[trigger] p1[j]).id by {
            let j2 = choose|j2: int|
                0 <= j2 < g14.len() && g15[i] == g14[j2] && g14[j2].calories.current > 0;
        }
        assert forall|j: int| 0 <= j < p1.len() implies (#[trigger] p1[j]).id < next_id2 by {
            let j2 = choose|j2: int| 0 <= j2 < p0.len() && p1[j] == p0[j2];
        }
        lemma_surviving_plants_unique(p0, eaten);
    }

    // Counters.
    population_counter_system(&creatures, &mut population);
    tick_counter_system(&mut tick_count);

    let result = World {
        grid,
        creatures,
        plants,
        next_id: next_id2,
        band_center,
        band_mode,
        index,
        tick_count,
        population,
        band_viz,
        config,
    };
    proof {
        lemma_assemble_tick(
            w,
            result,
            g1,
            g2,
            g3,
            g4,
            g5,
            g6,
            g7,
            g8,
            g9,
            g10,
            g11,
            g12,
            g13,
            g14,
            idle_out.1@,
            food_out.1@,
            failures@,
            moved@,
            center,
            wdim as int,
            hdim as int,
        );
    }
    result
}

/// The eat pass keeps the remaining plants' identifiers pairwise
/// distinct.
pub proof fn lemma_surviving_plants_unique(plants: Seq<Plant>, eaten: Set<u64>)
    requires
        forall|i: int, j: int|
            0 <= i < plants.len() && 0 <= j < plants.len() && i != j ==> (#[trigger] plants[i]).id
                != (#[trigger] plants[j]).id,
    ensures
        forall|k1: int, k2: int|
            0 <= k1 < spec_surviving_plants(plants, eaten).len() && 0 <= k2
                < spec_surviving_plants(plants, eaten).len() && k1 != k2 ==> (
            #[trigger] spec_surviving_plants(plants, eaten)[k1]).id != (
            #[trigger] spec_surviving_plants(plants, eaten)[k2]).id,
    decreases plants.len(),
{
    if plants.len() > 0 {
        assert(forall|i: int, j: int|
            0 <= i < plants.drop_last().len() && 0 <= j < plants.drop_last().len() && i != j
                ==> (#[trigger] plants.drop_last()[i]).id != (#[trigger] plants.drop_last()[j]).id);
        lemma_surviving_plants_unique(plants.drop_last(), eaten);
        lemma_surviving_plants_props(plants.drop_last(), eaten);
        let all = spec_surviving_plants(plants, eaten);
        let pre = spec_surviving_plants(plants.drop_last(), eaten);
        assert forall|k1: int, k2: int|
            0 <= k1 < all.len() && 0 <= k2 < all.len() && k1 != k2 implies (
        #[trigger] all[k1]).id != (#[trigger] all[k2]).id by {
            if k1 < pre.len() && k2 < pre.len() {
                assert(all[k1] == pre[k1] && all[k2] == pre[k2]);
            } else {
                let (ka, kb) = if k1 < k2 {
                    (k1, k2)
                } else {
                    (k2, k1)
                };
                assert(kb >= pre.len() && all.len() == pre.len() + 1);
                assert(all[kb] == plants.last());
                assert(all[ka] == pre[ka]);
                let j = choose|j: int|
                    0 <= j < plants.drop_last().len() && pre[ka] == plants.drop_last()[j];
                assert(pre[ka] == plants[j] && j < plants.len() - 1);
                assert(plants[j].id != plants[plants.len() - 1].id);
            }
        }
    }
}


impl World {
    /// An empty world over a terrain: no entities, counters at zero, the
    /// anchor following the population.
    pub fn new(grid: GameGrid, config: Config) -> (r: World)
        requires
            grid.wf(),
            config.wf(),
        ensures
            wf_world(r),
            r.grid == grid,
            r.config == config,
            r.creatures@.len() == 0,
            r.plants@.len() == 0,
            r.next_id == 0,
            r.tick_count.0 == 0,
            r.population.0 == 0,
            r.band_mode == BandCenterMode::Auto,
    {
        World {
            grid,
            creatures: Vec::new(),
            plants: Vec::new(),
            next_id: 0,
            band_center: BandCenter(Position { x: 0, y: 0 }),
            band_mode: BandCenterMode::Auto,
            index: SpatialGrid::new(),
            tick_count: TickCount(0),
            population: PopulationCount(0),
            band_viz: BandCenterVisualizationEnabled(false),
            config,
        }
    }

    /// Spawns a creature at `pos` with a full calorie pool and nothing
    /// pending.
    pub fn spawn_creature(&mut self, pos: Position)
        requires
            wf_world(*old(self)),
            old(self).grid.spec_in_bounds(pos),
            old(self).next_id < u64::MAX,
        ensures
            wf_world(*final(self)),
            final(self).creatures@ == old(self).creatures@.push(
                Creature {
                    id: old(self).next_id,
                    pos: pos,
                    calories: Calories {
                        current: old(self).config.max_calories,
                        max: old(self).config.max_calories,
                    },
                    goal: None,
                    travel: None,
                    path: None,
                    requires_at: None,
                    outside_band: false,
                    pregnancy: None,
                },
            ),
            final(self).plants@ == old(self).plants@,
            final(self).next_id == old(self).next_id + 1,
            final(self).grid == old(self).grid,
            final(self).config == old(self).config,
            final(self).tick_count == old(self).tick_count,
            final(self).band_mode == old(self).band_mode,
            final(self).band_center == old(self).band_center,
    {
        let id = self.next_id;
        let max = self.config.max_calories;
        self.creatures.push(
            Creature {
                id,
                pos,
                calories: Calories { current: max, max },
                goal: None,
                travel: None,
                path: None,
                requires_at: None,
                outside_band: false,
                pregnancy: None,
            },
        );
        self.next_id = self.next_id + 1;
    }

    /// Spawns a harvestable, edible plant at `pos`.
    pub fn spawn_plant(&mut self, pos: Position, plant_type: PlantType, nutrition: i64)
        requires
            wf_world(*old(self)),
            old(self).grid.spec_in_bounds(pos),
            old(self).next_id < u64::MAX,
            0 <= nutrition <= 100000000,
        ensures
            wf_world(*final(self)),
            final(self).plants@ == old(self).plants@.push(
                Plant {
                    id: old(self).next_id,
                    pos: pos,
                    plant_type: plant_type,
                    food: FoodSource { nutrition_value: nutrition },
                    harvestable: true,
                    edible: true,
                },
            ),
            final(self).creatures@ == old(self).creatures@,
            final(self).next_id == old(self).next_id + 1,
            final(self).grid == old(self).grid,
            final(self).config == old(self).config,
            final(self).tick_count == old(self).tick_count,
            final(self).band_mode == old(self).band_mode,
            final(self).band_center == old(self).band_center,
    {
        let id = self.next_id;
        self.plants.push(
            Plant {
                id,
                pos,
                plant_type,
                food: FoodSource { nutrition_value: nutrition },
                harvestable: true,
                edible: true,
            },
        );
        self.next_id = self.next_id + 1;
    }

    /// The manual territory-override entry point: pins the band anchor to
    /// `pos` until the override is cleared.
    pub fn set_band_center_override(&mut self, pos: Position)
        ensures
            final(self).band_mode == BandCenterMode::Manual(pos),
            final(self).creatures@ == old(self).creatures@,
            final(self).plants@ == old(self).plants@,
            final(self).grid == old(self).grid,
            final(self).config == old(self).config,
            final(self).band_center == old(self).band_center,
            final(self).next_id == old(self).next_id,
            final(self).tick_count == old(self).tick_count,
            wf_world(*old(self)) ==> wf_world(*final(self)),
    {
        self.band_mode = BandCenterMode::Manual(pos);
    }

    /// Lets the anchor follow the population again.
    pub fn clear_band_center_override(&mut self)
        ensures
            final(self).band_mode == BandCenterMode::Auto,
            final(self).creatures@ == old(self).creatures@,
            final(self).plants@ == old(self).plants@,
            final(self).grid == old(self).grid,
            final(self).config == old(self).config,
            final(self).band_center == old(self).band_center,
            final(self).next_id == old(self).next_id,
            final(self).tick_count == old(self).tick_count,
            wf_world(*old(self)) ==> wf_world(*final(self)),
    {
        self.band_mode = BandCenterMode::Auto;
    }

    /// The selection/inspection read path: a creature's position, calorie
    /// pool and pregnancy status by identifier.
    pub fn selected_info(&self, id: u64) -> (r: Option<(Position, Calories, Option<Pregnant>)>)
        ensures
            match r {
                Some(info) => exists|i: int|
                    0 <= i < self.creatures@.len() && (#[trigger] self.creatures@[i]).id == id
                        && info == (
                        self.creatures@[i].pos,
                        self.creatures@[i].calories,
                        self.creatures@[i].pregnancy,
                    ),
                None => forall|i: int|
                    0 <= i < self.creatures@.len() ==> (#[trigger] self.creatures@[i]).id != id,
            },
    {
        let mut i: usize = 0;
        while i < self.creatures.len()
            invariant
                i <= self.creatures@.len(),
                forall|j: int| 0 <= j < i ==> (#[trigger] self.creatures@[j]).id != id,
            decreases self.creatures@.len() - i,
        {
            if self.creatures[i].id == id {
                let c = &self.creatures[i];
                return Some((c.pos, c.calories, c.pregnancy));
            }
            i = i + 1;
        }
        None
    }

    /// The path-visualization read path: a creature's current waypoint
    /// list by identifier.
    pub fn creature_waypoints(&self, id: u64) -> (r: Option<&Vec<Position>>)
        requires
            forall|i: int, j: int|
                0 <= i < self.creatures@.len() && 0 <= j < self.creatures@.len() && i != j ==> (
                #[trigger] self.creatures@[i]).id != (#[trigger] self.creatures@[j]).id,
        ensures
            match r {
                Some(v) => exists|i: int|
                    0 <= i < self.creatures@.len() && (#[trigger] self.creatures@[i]).id == id && {
                        match self.creatures@[i].path {
                            Some(ap) => v@ == ap.nodes@,
                            None => false,
                        }
                    },
                None => forall|i: int|
                    0 <= i < self.creatures@.len() ==> (#[trigger] self.creatures@[i]).id != id || (
                    #[trigger] self.creatures@[i]).path is None,
            },
    {
        let mut i: usize = 0;
        while i < self.creatures.len()
            invariant
                i <= self.creatures@.len(),
                forall|k: int, j: int|
                    0 <= k < self.creatures@.len() && 0 <= j < self.creatures@.len() && k != j
                        ==> (#[trigger] self.creatures@[k]).id != (#[trigger] self.creatures@[j]).id,
                forall|j: int|
                    0 <= j < i ==> (#[trigger] self.creatures@[j]).id != id || (
                    #[trigger] self.creatures@[j]).path is None,
            decreases self.creatures@.len() - i,
        {
            if self.creatures[i].id == id {
                proof {
                    assert forall|j: int|
                        0 <= j < self.creatures@.len() && j != i as int implies (
                    #[trigger] self.creatures@[j]).id != id by {
                        assert(self.creatures@[j].id != self.creatures@[i as int].id);
                    }
                }
                match &self.creatures[i].path {
                    Some(ap) => {
                        return Some(&ap.nodes);
                    },
                    None => {
                        return None;
                    },
                }
            }
            i = i + 1;
        }
        None
    }
}

} // verus!
