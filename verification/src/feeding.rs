//! Food targeting: the expanding-ring search over the spatial index, the
//! per-tick claim set that keeps two creatures off the same plant, and
//! the eat executor with its own per-tick consumption claims.

use vstd::prelude::*;
use crate::grid::{Position, abs_int};
use crate::entities::{ActionEat, Calories, Creature, Goal, Plant, RequiresAt};
use crate::spatial::{SpatialGrid, ids_at_spec};

verus! {

/// A plant that can be targeted for eating.
pub open spec fn spec_is_food(p: Plant) -> bool {
    p.harvestable && p.edible
}

pub open spec fn spec_vec_contains(s: Seq<u64>, id: u64) -> bool {
    exists|j: int| 0 <= j < s.len() && s[j] == id
}

/// Ring distance of the expanding search: the ring holding `b` around
/// `a` is their Chebyshev distance.
pub open spec fn spec_chebyshev(a: Position, b: Position) -> int {
    let dx = abs_int(a.x - b.x);
    let dy = abs_int(a.y - b.y);
    if dx >= dy {
        dx
    } else {
        dy
    }
}

/// A plant a searching creature may still claim this tick.
pub open spec fn spec_available(p: Plant, claims: Seq<u64>) -> bool {
    spec_is_food(p) && !spec_vec_contains(claims, p.id)
}

/// The entity sequence lists `p` at its own position.
pub open spec fn plant_listed(entities: Seq<(u64, Position)>, p: Plant) -> bool {
    exists|j: int| 0 <= j < entities.len() && #[trigger] entities[j] == (p.id, p.pos)
}

/// Every plant stands in the entity sequence the spatial index was built
/// from, at its own position.
pub open spec fn plants_in_entities(plants: Seq<Plant>, entities: Seq<(u64, Position)>) -> bool {
    forall|pi: int| 0 <= pi < plants.len() ==> plant_listed(entities, #[trigger] plants[pi])
}

/// No other entity shares a plant's identifier, so an index hit on a
/// plant's identifier is that plant.
pub open spec fn plant_ids_exclusive(plants: Seq<Plant>, entities: Seq<(u64, Position)>) -> bool {
    forall|j: int, pi: int|
        0 <= j < entities.len() && 0 <= pi < plants.len() && (#[trigger] entities[j]).0 == (
        #[trigger] plants[pi]).id ==> entities[j].1 == plants[pi].pos
}

/// An entity's identifier is listed at its own cell.
pub proof fn lemma_ids_at_contains(s: Seq<(u64, Position)>, j: int)
    requires
        0 <= j < s.len(),
    ensures
        ids_at_spec(s, s[j].1).contains(s[j].0),
    decreases s.len(),
{
    if j == s.len() - 1 {
        assert(ids_at_spec(s, s[j].1) == ids_at_spec(s.drop_last(), s[j].1) + seq![s[j].0]);
        assert(ids_at_spec(s, s[j].1).last() == s[j].0);
    } else {
        lemma_ids_at_contains(s.drop_last(), j);
        assert(s.drop_last()[j] == s[j]);
        let p = s[j].1;
        assert(ids_at_spec(s.drop_last(), p).contains(s[j].0));
        let id = s[j].0;
        let w = choose|w: int|
            0 <= w < ids_at_spec(s.drop_last(), p).len() && ids_at_spec(s.drop_last(), p)[w] == id;
        assert(ids_at_spec(s, p)[w] == id);
    }
}

/// An identifier listed at a cell names an entity standing there.
pub proof fn lemma_ids_at_member(s: Seq<(u64, Position)>, p: Position, id: u64)
    requires
        ids_at_spec(s, p).contains(id),
    ensures
        exists|j: int| 0 <= j < s.len() && s[j] == (id, p),
    decreases s.len(),
{
    if s.len() == 0 {
    } else {
        if s.last().1 == p && s.last().0 == id {
            assert(s[s.len() - 1] == (id, p));
        } else {
            let pre = ids_at_spec(s.drop_last(), p);
            let w = choose|w: int| 0 <= w < ids_at_spec(s, p).len() && ids_at_spec(s, p)[w] == id;
            assert(pre.contains(id)) by {
                if w < pre.len() {
                    assert(pre[w] == id);
                } else {
                    assert(s.last().1 == p && s.last().0 == id);
                }
            }
            lemma_ids_at_member(s.drop_last(), p, id);
            let j = choose|j: int| 0 <= j < s.drop_last().len() && s.drop_last()[j] == (id, p);
            assert(s[j] == (id, p));
        }
    }
}

/// The part of ring `r` around `s` that the scan has already covered
/// when it stands at offset `(dx, dy)`, together with all inner rings.
pub open spec fn spec_scanned(s: Position, q: Position, r: int, dx: int, dy: int) -> bool {
    let ddx = q.x - s.x;
    let ddy = q.y - s.y;
    spec_chebyshev(s, q) < r || (spec_chebyshev(s, q) == r && (ddx < dx || (ddx == dx && ddy
        < dy)))
}

/// `p` is first in the expanding-ring scan order around `start` among
/// the still-available food: no available plant stands on an inner ring,
/// nor earlier (ascending dx, then ascending dy) on `p`'s own ring.
pub open spec fn spec_first_in_scan(
    start: Position,
    p: Plant,
    plants: Seq<Plant>,
    claims: Seq<u64>,
) -> bool {
    forall|qi: int|
        0 <= qi < plants.len() && spec_available(#[trigger] plants[qi], claims)
            ==> !spec_scanned(
            start,
            plants[qi].pos,
            spec_chebyshev(start, p.pos),
            p.pos.x - start.x,
            p.pos.y - start.y,
        )
}

/// Looks up a plant by identifier: the first index holding it.
pub fn find_plant_by_id(plants: &Vec<Plant>, id: u64) -> (r: Option<usize>)
    ensures
        match r {
            Some(j) => 0 <= j < plants@.len() && plants@[j as int].id == id,
            None => forall|j: int| 0 <= j < plants@.len() ==> (#[trigger] plants@[j]).id != id,
        },
{
    let mut j: usize = 0;
    while j < plants.len()
        invariant
            j <= plants@.len(),
            forall|i: int| 0 <= i < j ==> (#[trigger] plants@[i]).id != id,
        decreases plants@.len() - j,
    {
        if plants[j].id == id {
            return Some(j);
        }
        j = j + 1;
    }
    None
}

/// The requirements the ring search places on the index and the plant
/// list: the index reflects `entities`, plants stand in `entities` at
/// their own positions, nothing else carries a plant's identifier, and
/// all positions are on the non-negative quadrant the index covers.
pub open spec fn search_inputs_ok(
    index: SpatialGrid,
    plants: Seq<Plant>,
    entities: Seq<(u64, Position)>,
) -> bool {
    &&& forall|p: Position|
        0 <= p.x && 0 <= p.y ==> #[trigger] index.ids_at(p) == ids_at_spec(entities, p)
    &&& plants_in_entities(plants, entities)
    &&& plant_ids_exclusive(plants, entities)
    &&& forall|pi: int|
        0 <= pi < plants.len() ==> 0 <= (#[trigger] plants[pi]).pos.x && 0 <= plants[pi].pos.y
    &&& forall|pi: int, pj: int|
        0 <= pi < plants.len() && 0 <= pj < plants.len() && pi != pj ==> (
        #[trigger] plants[pi]).id != (#[trigger] plants[pj]).id
}

/// The expanding-ring search: for radius 0 up to a hard cap of 100, scan
/// every cell of the square ring at that radius, in ascending dx then
/// ascending dy order; the first cell holding an unclaimed harvestable,
/// edible plant decides. The result is first in that scan order among the
/// still-unclaimed food (so in particular at minimal ring distance), or
/// `None` when no ring under the cap holds any.
pub fn find_closest_available_food(
    index: &SpatialGrid,
    plants: &Vec<Plant>,
    start: Position,
    claims: &Vec<u64>,
    Ghost(entities): Ghost<Seq<(u64, Position)>>,
) -> (r: Option<usize>)
    requires
        0 <= start.x <= 1000000,
        0 <= start.y <= 1000000,
        search_inputs_ok(*index, plants@, entities),
    ensures
        match r {
            Some(pi) => {
                &&& 0 <= pi < plants@.len()
                &&& spec_available(plants@[pi as int], claims@)
                &&& spec_chebyshev(start, plants@[pi as int].pos) <= 99
                &&& forall|qi: int|
                    0 <= qi < plants@.len() && spec_available(#[trigger] plants@[qi], claims@)
                        ==> spec_chebyshev(start, plants@[qi].pos) >= spec_chebyshev(
                        start,
                        plants@[pi as int].pos,
                    )
                &&& spec_first_in_scan(start, plants@[pi as int], plants@, claims@)
            },
            None => forall|qi: int|
                0 <= qi < plants@.len() && spec_available(#[trigger] plants@[qi], claims@)
                    ==> spec_chebyshev(start, plants@[qi].pos) > 99,
        },
{
    let mut radius: i64 = 0;
    while radius < 100
        invariant
            0 <= start.x <= 1000000,
            0 <= start.y <= 1000000,
            search_inputs_ok(*index, plants@, entities),
            0 <= radius <= 100,
            forall|qi: int|
                0 <= qi < plants@.len() && spec_available(#[trigger] plants@[qi], claims@)
                    ==> spec_chebyshev(start, plants@[qi].pos) >= radius,
        decreases 100 - radius,
    {
        let mut dx: i64 = -radius;
        while dx <= radius
            invariant
                0 <= start.x <= 1000000,
                0 <= start.y <= 1000000,
                search_inputs_ok(*index, plants@, entities),
                0 <= radius < 100,
                -radius <= dx <= radius + 1,
                forall|qi: int|
                    0 <= qi < plants@.len() && spec_available(#[trigger] plants@[qi], claims@)
                        ==> !spec_scanned(start, plants@[qi].pos, radius as int, dx as int, -(
                    radius as int)),
            decreases radius + 1 - dx,
        {
            let mut dy: i64 = -radius;
            while dy <= radius
                invariant
                    0 <= start.x <= 1000000,
                    0 <= start.y <= 1000000,
                    search_inputs_ok(*index, plants@, entities),
                    0 <= radius < 100,
                    -radius <= dx <= radius,
                    -radius <= dy <= radius + 1,
                    forall|qi: int|
                        0 <= qi < plants@.len() && spec_available(#[trigger] plants@[qi], claims@)
                            ==> !spec_scanned(
                            start,
                            plants@[qi].pos,
                            radius as int,
                            dx as int,
                            dy as int,
                        ),
                decreases radius + 1 - dy,
            {
                let on_ring = dx == radius || dx == -radius || dy == radius || dy == -radius;
                let cx = start.x as i64 + dx;
                let cy = start.y as i64 + dy;
                if on_ring && cx >= 0 && cy >= 0 {
                    let cell = Position { x: cx as i32, y: cy as i32 };
                    let found = scan_cell(index, plants, cell, claims, Ghost(entities));
                    match found {
                        Some(pi) => {
                            proof {
                                assert(plants@[pi as int].pos == cell);
                                assert(spec_chebyshev(start, cell) == radius);
                                assert(cell.x - start.x == dx && cell.y - start.y == dy);
                                assert forall|qi: int|
                                    0 <= qi < plants@.len() && spec_available(
                                        #[trigger] plants@[qi],
                                        claims@,
                                    ) implies spec_chebyshev(start, plants@[qi].pos) >= radius
                                    && !spec_scanned(
                                    start,
                                    plants@[qi].pos,
                                    radius as int,
                                    dx as int,
                                    dy as int,
                                ) by {}
                                assert(spec_first_in_scan(
                                    start,
                                    plants@[pi as int],
                                    plants@,
                                    claims@,
                                ));
                            }
                            return Some(pi);
                        },
                        None => {
                            proof {
                                assert forall|qi: int|
                                    0 <= qi < plants@.len() && spec_available(
                                        #[trigger] plants@[qi],
                                        claims@,
                                    ) implies !spec_scanned(
                                    start,
                                    plants@[qi].pos,
                                    radius as int,
                                    dx as int,
                                    dy as int + 1,
                                ) by {
                                    if plants@[qi].pos == cell {
                                        assert(false);
                                    }
                                }
                            }
                        },
                    }
                } else {
                    proof {
                        assert forall|qi: int|
                            0 <= qi < plants@.len() && spec_available(
                                #[trigger] plants@[qi],
                                claims@,
                            ) implies !spec_scanned(
                            start,
                            plants@[qi].pos,
                            radius as int,
                            dx as int,
                            dy as int + 1,
                        ) by {
                            let q = plants@[qi].pos;
                            if q.x - start.x == dx && q.y - start.y == dy {
                                if !on_ring {
                                    assert(spec_chebyshev(start, q) < radius);
                                } else {
                                    assert(0 <= q.x && 0 <= q.y);
                                    assert(cx < 0 || cy < 0);
                                    assert(false);
                                }
                            }
                        }
                    }
                }
                dy = dy + 1;
            }
            proof {
                assert forall|qi: int|
                    0 <= qi < plants@.len() && spec_available(#[trigger] plants@[qi], claims@)
                        implies !spec_scanned(
                    start,
                    plants@[qi].pos,
                    radius as int,
                    dx as int + 1,
                    -(radius as int),
                ) by {
                    let q = plants@[qi].pos;
                    assert(!spec_scanned(start, q, radius as int, dx as int, radius as int + 1));
                    if spec_chebyshev(start, q) == radius {
                        assert(-(radius as int) <= q.y - start.y <= radius);
                    }
                }
            }
            dx = dx + 1;
        }
        proof {
            assert forall|qi: int|
                0 <= qi < plants@.len() && spec_available(#[trigger] plants@[qi], claims@)
                    implies spec_chebyshev(start, plants@[qi].pos) >= radius + 1 by {
                let q = plants@[qi].pos;
                assert(!spec_scanned(start, q, radius as int, radius as int + 1, -(radius as int)));
                if spec_chebyshev(start, q) <= radius {
                    assert(q.x - start.x <= radius);
                }
            }
        }
        radius = radius + 1;
    }
    None
}

/// Scans one cell's occupant list for the first unclaimed food plant.
fn scan_cell(
    index: &SpatialGrid,
    plants: &Vec<Plant>,
    cell: Position,
    claims: &Vec<u64>,
    Ghost(entities): Ghost<Seq<(u64, Position)>>,
) -> (r: Option<usize>)
    requires
        0 <= cell.x,
        0 <= cell.y,
        search_inputs_ok(*index, plants@, entities),
    ensures
        match r {
            Some(pi) => 0 <= pi < plants@.len() && spec_available(plants@[pi as int], claims@)
                && plants@[pi as int].pos == cell,
            None => forall|pi: int|
                0 <= pi < plants@.len() && (#[trigger] plants@[pi]).pos == cell ==> !spec_available(
                    plants@[pi],
                    claims@,
                ),
        },
{
    let ids = match index.lookup(cell) {
        Some(v) => v,
        None => {
            proof {
                assert forall|pi: int|
                    0 <= pi < plants@.len() && (#[trigger] plants@[pi]).pos
                        == cell implies !spec_available(plants@[pi], claims@) by {
                    assert(plant_listed(entities, plants@[pi]));
                    let j = choose|j: int|
                        0 <= j < entities.len() && entities[j] == (plants@[pi].id, plants@[pi].pos);
                    lemma_ids_at_contains(entities, j);
                }
            }
            return None;
        },
    };
    let mut kk: usize = 0;
    while kk < ids.len()
        invariant
            0 <= cell.x,
            0 <= cell.y,
            search_inputs_ok(*index, plants@, entities),
            ids@ == index.ids_at(cell),
            kk <= ids@.len(),
            forall|w: int, pi: int|
                0 <= w < kk && 0 <= pi < plants@.len() && (#[trigger] plants@[pi]).id
                    == #[trigger] ids@[w] ==> !spec_available(plants@[pi], claims@),
        decreases ids@.len() - kk,
    {
        let id = ids[kk];
        match find_plant_by_id(plants, id) {
            Some(pi) => {
                let p_harvest = plants[pi].harvestable;
                let p_edible = plants[pi].edible;
                if p_harvest && p_edible && !claims_contain(claims, id) {
                    proof {
                        lemma_ids_at_member(entities, cell, id);
                        let j = choose|j: int| 0 <= j < entities.len() && entities[j] == (id, cell);
                        assert(entities[j].0 == plants@[pi as int].id);
                        assert(plants@[pi as int].pos == cell);
                    }
                    return Some(pi);
                }
                proof {
                    assert forall|pi2: int|
                        0 <= pi2 < plants@.len() && (#[trigger] plants@[pi2]).id
                            == id implies !spec_available(plants@[pi2], claims@) by {}
                }
            },
            None => {},
        }
        kk = kk + 1;
    }
    proof {
        assert forall|pi: int|
            0 <= pi < plants@.len() && (#[trigger] plants@[pi]).pos == cell implies !spec_available(
            plants@[pi],
            claims@,
        ) by {
            assert(plant_listed(entities, plants@[pi]));
            let j = choose|j: int|
                0 <= j < entities.len() && entities[j] == (plants@[pi].id, plants@[pi].pos);
            lemma_ids_at_contains(entities, j);
            let id = plants@[pi].id;
            assert(index.ids_at(cell).contains(id));
            let w = choose|w: int| 0 <= w < ids@.len() && ids@[w] == id;
            assert(ids@[w] == id);
        }
    }
    None
}

fn claims_contain(claims: &Vec<u64>, id: u64) -> (r: bool)
    ensures
        r == spec_vec_contains(claims@, id),
{
    let mut j: usize = 0;
    while j < claims.len()
        invariant
            j <= claims@.len(),
            forall|i: int| 0 <= i < j ==> claims@[i] != id,
        decreases claims@.len() - j,
    {
        if claims[j] == id {
            return true;
        }
        j = j + 1;
    }
    false
}

/// Ticks of work an eat action takes.
pub const EAT_MAX_PROGRESS: u32 = 3;

/// How food targeting treats one creature under the claim set `claims`:
/// a seeker is handed an eat action against the first unclaimed food
/// plant in the expanding-ring scan order (so at minimal ring distance),
/// with a positional precondition to stand exactly on it; a seeker with
/// nothing in reach loses the intent and is re-evaluated by the planner
/// next tick; everyone else is untouched.
pub open spec fn spec_target_rel(
    c: Creature,
    d: Creature,
    plants: Seq<Plant>,
    claims: Seq<u64>,
) -> bool {
    if c.goal == Some(Goal::WantsToEat) {
        match d.goal {
            Some(Goal::Eat(a)) => exists|pi: int|
                0 <= pi < plants.len() && {
                    let p = #[trigger] plants[pi];
                    &&& p.id == a.target_entity
                    &&& spec_available(p, claims)
                    &&& spec_chebyshev(c.pos, p.pos) <= 99
                    &&& forall|qi: int|
                        0 <= qi < plants.len() && spec_available(#[trigger] plants[qi], claims)
                            ==> spec_chebyshev(c.pos, plants[qi].pos) >= spec_chebyshev(
                            c.pos,
                            p.pos,
                        )
                    &&& spec_first_in_scan(c.pos, p, plants, claims)
                    &&& a.progress == 0
                    &&& a.max_progress == EAT_MAX_PROGRESS
                    &&& d == Creature {
                        goal: d.goal,
                        requires_at: Some(RequiresAt { position: p.pos, radius: 0 }),
                        ..c
                    }
                },
            None => {
                &&& forall|qi: int|
                    0 <= qi < plants.len() && spec_available(#[trigger] plants[qi], claims)
                        ==> spec_chebyshev(c.pos, plants[qi].pos) > 99
                &&& d == Creature { goal: None, ..c }
            },
            _ => false,
        }
    } else {
        d == c
    }
}

/// The claim set after one creature's targeting: grown by its new
/// target, if it acquired one.
pub open spec fn spec_claims_after(c: Creature, d: Creature, claims: Seq<u64>) -> Seq<u64> {
    if c.goal == Some(Goal::WantsToEat) {
        match d.goal {
            Some(Goal::Eat(a)) => claims.push(a.target_entity),
            _ => claims,
        }
    } else {
        claims
    }
}

/// Resolves wants-to-eat intents in iteration order: each seeker runs the
/// expanding-ring search against the plants not yet claimed this pass, so
/// two creatures can never target the same plant in one tick; first come
/// in iteration order wins. The ghost result is the chain of claim sets,
/// one per creature boundary.
#[verifier::rlimit(80)]
pub fn find_food_system(
    creatures: Vec<Creature>,
    plants: &Vec<Plant>,
    index: &SpatialGrid,
    Ghost(entities): Ghost<Seq<(u64, Position)>>,
) -> (out: (Vec<Creature>, Ghost<Seq<Seq<u64>>>))
    requires
        search_inputs_ok(*index, plants@, entities),
        forall|i: int|
            0 <= i < creatures@.len() ==> {
                let p = (#[trigger] creatures@[i]).pos;
                0 <= p.x <= 1000000 && 0 <= p.y <= 1000000
            },
    ensures
        out.0@.len() == creatures@.len(),
        out.1@.len() == creatures@.len() + 1,
        out.1@[0] == Seq::<u64>::empty(),
        forall|i: int|
            0 <= i < out.0@.len() ==> spec_target_rel(
                creatures@[i],
                #[trigger] out.0@[i],
                plants@,
                out.1@[i],
            ) && out.1@[i + 1] == spec_claims_after(creatures@[i], out.0@[i], out.1@[i]),
{
    let ghost orig = creatures@;
    let mut input = creatures;
    let mut out: Vec<Creature> = Vec::new();
    let mut claims: Vec<u64> = Vec::new();
    let ghost mut chain: Seq<Seq<u64>> = seq![Seq::<u64>::empty()];
    while input.len() > 0
        invariant
            search_inputs_ok(*index, plants@, entities),
            orig.len() == out@.len() + input@.len(),
            chain.len() == out@.len() + 1,
            chain[0] == Seq::<u64>::empty(),
            chain[out@.len() as int] == claims@,
            forall|j: int| 0 <= j < input@.len() ==> #[trigger] input@[j] == orig[out@.len() + j],
            forall|j: int|
                0 <= j < input@.len() ==> {
                    let p = (#[trigger] input@[j]).pos;
                    0 <= p.x <= 1000000 && 0 <= p.y <= 1000000
                },
            forall|j: int|
                0 <= j < out@.len() ==> spec_target_rel(orig[j], #[trigger] out@[j], plants@, chain[j])
                    && chain[j + 1] == spec_claims_after(orig[j], out@[j], chain[j]),
        decreases input@.len(),
    {
        let ghost k = out@.len() as int;
        let mut c = input.remove(0);
        let ghost pre = c;
        if matches!(c.goal, Some(Goal::WantsToEat)) {
            match find_closest_available_food(index, plants, c.pos, &claims, Ghost(entities)) {
                Some(pi) => {
                    let target = plants[pi].id;
                    let target_pos = plants[pi].pos;
                    c.goal = Some(
                        Goal::Eat(
                            ActionEat {
                                target_entity: target,
                                progress: 0,
                                max_progress: EAT_MAX_PROGRESS,
                            },
                        ),
                    );
                    c.requires_at = Some(RequiresAt { position: target_pos, radius: 0 });
                    claims.push(target);
                },
                None => {
                    c.goal = None;
                },
            }
        }
        out.push(c);
        proof {
            assert(spec_target_rel(pre, c, plants@, chain[k]));
            chain = chain.push(claims@);
            assert(chain[k + 1] == spec_claims_after(pre, c, chain[k]));
        }
    }
    (out, Ghost(chain))
}

/// Appends one claim, growing the represented set by exactly that
/// identifier.
fn push_claim(claims: &mut Vec<u64>, id: u64)
    ensures
        final(claims)@ == old(claims)@.push(id),
        forall|id2: u64|
            spec_vec_contains(final(claims)@, id2) <==> (spec_vec_contains(old(claims)@, id2)
                || id2 == id),
{
    let ghost pre = claims@;
    claims.push(id);
    proof {
        assert forall|id2: u64|
            spec_vec_contains(claims@, id2) <==> (spec_vec_contains(pre, id2) || id2 == id) by {
            if spec_vec_contains(pre, id2) {
                let j = choose|j: int| 0 <= j < pre.len() && pre[j] == id2;
                assert(claims@[j] == id2);
            }
            if id2 == id {
                assert(claims@[pre.len() as int] == id2);
            }
            if spec_vec_contains(claims@, id2) {
                let j = choose|j: int| 0 <= j < claims@.len() && claims@[j] == id2;
                if j < pre.len() {
                    assert(pre[j] == id2);
                }
            }
        }
    }
}

/// The target of `c`'s eat action still exists as harvestable, edible
/// food.
pub open spec fn spec_target_exists(plants: Seq<Plant>, target: u64) -> bool {
    exists|pi: int|
        0 <= pi < plants.len() && (#[trigger] plants[pi]).id == target && spec_is_food(plants[pi])
}

/// The index of the (unique) plant carrying `target`.
pub open spec fn spec_target_idx(plants: Seq<Plant>, target: u64) -> int {
    choose|pi: int|
        0 <= pi < plants.len() && (#[trigger] plants[pi]).id == target && spec_is_food(plants[pi])
}

/// How the eat executor treats one creature, given the per-tick
/// consumption claims so far. A vanished target re-queues the seeker; a
/// target already claimed this tick drops the loser's action without
/// re-queuing; an arrived, unclaimed eater claims the target, works one
/// tick, and on completing the required progress is granted the full
/// nutrition while the plant is marked destroyed.
pub open spec fn spec_eat_step(
    c: Creature,
    plants: Seq<Plant>,
    moved: Seq<u64>,
    claimed: Set<u64>,
    eaten: Set<u64>,
    work: int,
) -> (Creature, Set<u64>, Set<u64>, Option<u64>) {
    match c.goal {
        Some(Goal::Eat(a)) => {
            if c.path is None && !spec_vec_contains(moved, c.id) {
                if spec_target_exists(plants, a.target_entity) {
                    let p = plants[spec_target_idx(plants, a.target_entity)];
                    if c.pos == p.pos {
                        if claimed.contains(a.target_entity) {
                            (Creature { goal: None, requires_at: None, ..c }, claimed, eaten, None)
                        } else if a.progress + 1 >= a.max_progress {
                            (
                                Creature {
                                    goal: None,
                                    requires_at: None,
                                    calories: Calories {
                                        current: (c.calories.current - work
                                            + p.food.nutrition_value) as i64,
                                        ..c.calories
                                    },
                                    ..c
                                },
                                claimed.insert(a.target_entity),
                                eaten.insert(a.target_entity),
                                Some(a.target_entity),
                            )
                        } else {
                            (
                                Creature {
                                    goal: Some(
                                        Goal::Eat(
                                            ActionEat { progress: (a.progress + 1) as u32, ..a },
                                        ),
                                    ),
                                    calories: Calories {
                                        current: (c.calories.current - work) as i64,
                                        ..c.calories
                                    },
                                    ..c
                                },
                                claimed.insert(a.target_entity),
                                eaten,
                                None,
                            )
                        }
                    } else {
                        (c, claimed, eaten, None)
                    }
                } else {
                    (
                        Creature { goal: Some(Goal::WantsToEat), requires_at: None, ..c },
                        claimed,
                        eaten,
                        None,
                    )
                }
            } else {
                (c, claimed, eaten, None)
            }
        },
        _ => (c, claimed, eaten, None),
    }
}

/// One whole eat pass, in creature order, threading the claim and
/// destruction sets through.
pub open spec fn spec_eat_pass(
    s: Seq<Creature>,
    plants: Seq<Plant>,
    moved: Seq<u64>,
    claimed: Set<u64>,
    eaten: Set<u64>,
    work: int,
) -> (Seq<Creature>, Set<u64>, Set<u64>, Seq<Option<u64>>)
    decreases s.len(),
{
    if s.len() == 0 {
        (Seq::empty(), claimed, eaten, Seq::empty())
    } else {
        let step = spec_eat_step(s[0], plants, moved, claimed, eaten, work);
        let rest = spec_eat_pass(s.skip(1), plants, moved, step.1, step.2, work);
        (seq![step.0] + rest.0, rest.1, rest.2, seq![step.3] + rest.3)
    }
}

/// The plants that survive the pass: those not fully consumed.
pub open spec fn spec_surviving_plants(plants: Seq<Plant>, eaten: Set<u64>) -> Seq<Plant>
    decreases plants.len(),
{
    if plants.len() == 0 {
        Seq::empty()
    } else {
        spec_surviving_plants(plants.drop_last(), eaten) + if eaten.contains(plants.last().id) {
            Seq::empty()
        } else {
            seq![plants.last()]
        }
    }
}

/// Resolves eat actions for creatures that did not move this tick, in
/// iteration order, with a per-tick consumption claim set; plants whose
/// nutrition was fully harvested are destroyed.
#[verifier::rlimit(80)]
pub fn perform_eat_system(
    creatures: Vec<Creature>,
    plants: Vec<Plant>,
    moved: &Vec<u64>,
    work_cost: i64,
) -> (out: (Vec<Creature>, Vec<Plant>))
    requires
        0 <= work_cost <= 100000000,
        forall|i: int|
            0 <= i < creatures@.len() ==> crate::vitals::cal_in_range(
                (#[trigger] creatures@[i]).calories.current,
            ),
        forall|i: int|
            0 <= i < creatures@.len() ==> match (#[trigger] creatures@[i]).goal {
                Some(Goal::Eat(a)) => a.progress < 0x4000_0000,
                _ => true,
            },
        forall|pi: int|
            0 <= pi < plants@.len() ==> 0 <= (#[trigger] plants@[pi]).food.nutrition_value
                <= 100000000,
        forall|pi: int, pj: int|
            0 <= pi < plants@.len() && 0 <= pj < plants@.len() && pi != pj ==> (
            #[trigger] plants@[pi]).id != (#[trigger] plants@[pj]).id,
    ensures
        ({
            let pass = spec_eat_pass(
                creatures@,
                plants@,
                moved@,
                Set::empty(),
                Set::empty(),
                work_cost as int,
            );
            &&& out.0@ == pass.0
            &&& out.1@ == spec_surviving_plants(plants@, pass.2)
        }),
{
    let ghost orig = creatures@;
    let ghost full = spec_eat_pass(
        orig,
        plants@,
        moved@,
        Set::empty(),
        Set::empty(),
        work_cost as int,
    );
    let mut input = creatures;
    let mut out: Vec<Creature> = Vec::new();
    let mut claims: Vec<u64> = Vec::new();
    let mut eaten: Vec<u64> = Vec::new();
    let ghost mut cl_now: Set<u64> = Set::empty();
    let ghost mut e_now: Set<u64> = Set::empty();
    while input.len() > 0
        invariant
            0 <= work_cost <= 100000000,
            full == spec_eat_pass(
                orig,
                plants@,
                moved@,
                Set::empty(),
                Set::empty(),
                work_cost as int,
            ),
            full.0 == out@ + spec_eat_pass(
                input@,
                plants@,
                moved@,
                cl_now,
                e_now,
                work_cost as int,
            ).0,
            full.1 == spec_eat_pass(input@, plants@, moved@, cl_now, e_now, work_cost as int).1,
            full.2 == spec_eat_pass(input@, plants@, moved@, cl_now, e_now, work_cost as int).2,
            forall|id: u64| spec_vec_contains(claims@, id) <==> cl_now.contains(id),
            forall|id: u64| spec_vec_contains(eaten@, id) <==> e_now.contains(id),
            forall|j: int|
                0 <= j < input@.len() ==> crate::vitals::cal_in_range(
                    (#[trigger] input@[j]).calories.current,
                ),
            forall|j: int|
                0 <= j < input@.len() ==> match (#[trigger] input@[j]).goal {
                    Some(Goal::Eat(a)) => a.progress < 0x4000_0000,
                    _ => true,
                },
            forall|pi: int|
                0 <= pi < plants@.len() ==> 0 <= (#[trigger] plants@[pi]).food.nutrition_value
                    <= 100000000,
            forall|pi: int, pj: int|
                0 <= pi < plants@.len() && 0 <= pj < plants@.len() && pi != pj ==> (
                #[trigger] plants@[pi]).id != (#[trigger] plants@[pj]).id,
        decreases input@.len(),
    {
        let ghost input_old = input@;
        let ghost cl_old = cl_now;
        let ghost e_old = e_now;
        let mut c = input.remove(0);
        let ghost pre = c;
        proof {
            assert(input@ =~= input_old.skip(1));
        }
        let mut is_eater: bool = false;
        let mut target: u64 = 0;
        match &c.goal {
            Some(Goal::Eat(a)) => {
                is_eater = true;
                target = a.target_entity;
            },
            _ => {},
        }
        if is_eater && c.path.is_none() && !claims_contain(moved, c.id) {
            let a = match c.goal {
                Some(Goal::Eat(a)) => a,
                _ => ActionEat { target_entity: 0, progress: 0, max_progress: 0 },
            };
            let mut found: Option<usize> = None;
            match find_plant_by_id(&plants, target) {
                Some(pi) => {
                    if plants[pi].harvestable && plants[pi].edible {
                        found = Some(pi);
                    }
                },
                None => {},
            }
            match found {
                None => {
                    c.goal = Some(Goal::WantsToEat);
                    c.requires_at = None;
                    proof {
                        assert(!spec_target_exists(plants@, target));
                    }
                },
                Some(pi) => {
                    proof {
                        assert(spec_target_exists(plants@, target));
                        let w = spec_target_idx(plants@, target);
                        assert(plants@[w].id == target && plants@[pi as int].id == target);
                        assert(w == pi as int);
                    }
                    if c.pos == plants[pi].pos {
                        if claims_contain(&claims, target) {
                            c.goal = None;
                            c.requires_at = None;
                        } else if a.progress + 1 >= a.max_progress {
                            c.goal = None;
                            c.requires_at = None;
                            c.calories.current = c.calories.current - work_cost
                                + plants[pi].food.nutrition_value;
                            push_claim(&mut claims, target);
                            push_claim(&mut eaten, target);
                            proof {
                                cl_now = cl_now.insert(target);
                                e_now = e_now.insert(target);
                            }
                        } else {
                            c.goal = Some(
                                Goal::Eat(ActionEat { progress: a.progress + 1, ..a }),
                            );
                            c.calories.current = c.calories.current - work_cost;
                            push_claim(&mut claims, target);
                            proof {
                                cl_now = cl_now.insert(target);
                            }
                        }
                    }
                },
            }
        }
        out.push(c);
        proof {
            let step = spec_eat_step(pre, plants@, moved@, cl_old, e_old, work_cost as int);
            assert(c == step.0 && cl_now == step.1 && e_now == step.2);
            assert(seq![step.0] + spec_eat_pass(
                input@,
                plants@,
                moved@,
                cl_now,
                e_now,
                work_cost as int,
            ).0 =~= spec_eat_pass(
                input_old,
                plants@,
                moved@,
                cl_old,
                e_old,
                work_cost as int,
            ).0);
            assert(out@ =~= out@.subrange(0, out@.len() - 1).push(c));
            assert(full.0 =~= out@ + spec_eat_pass(
                input@,
                plants@,
                moved@,
                cl_now,
                e_now,
                work_cost as int,
            ).0);
        }
    }
    proof {
        assert(full.0 =~= out@);
        assert(full.2 == e_now);
    }
    let ghost dead = full.2;
    let ghost porig = plants@;
    let mut pin = plants;
    let mut pout: Vec<Plant> = Vec::new();
    while pin.len() > 0
        invariant
            dead == e_now,
            forall|id: u64| spec_vec_contains(eaten@, id) <==> e_now.contains(id),
            pin@.len() <= porig.len(),
            forall|j: int|
                0 <= j < pin@.len() ==> #[trigger] pin@[j] == porig[porig.len() - pin@.len() + j],
            pout@ == spec_surviving_plants(porig.take(porig.len() - pin@.len()), dead),
        decreases pin@.len(),
    {
        let ghost k = porig.len() - pin@.len();
        let p = pin.remove(0);
        proof {
            assert(porig.take(k + 1).drop_last() =~= porig.take(k));
            assert(porig.take(k + 1).last() == p);
        }
        if !claims_contain(&eaten, p.id) {
            pout.push(p);
        }
    }
    proof {
        assert(porig.take(porig.len() as int) =~= porig);
    }
    (out, pout)
}


/// Claim sets only grow along a targeting pass.
pub proof fn lemma_claim_chain_monotone(
    orig: Seq<Creature>,
    out: Seq<Creature>,
    chain: Seq<Seq<u64>>,
    i: int,
    j: int,
    t: u64,
)
    requires
        out.len() == orig.len(),
        chain.len() == out.len() + 1,
        forall|k: int|
            0 <= k < out.len() ==> chain[k + 1] == spec_claims_after(
                orig[k],
                #[trigger] out[k],
                chain[k],
            ),
        0 <= i <= j <= out.len(),
        spec_vec_contains(chain[i], t),
    ensures
        spec_vec_contains(chain[j], t),
    decreases j - i,
{
    if i < j {
        assert(chain[i + 1] == spec_claims_after(orig[i], out[i], chain[i]));
        assert(spec_vec_contains(chain[i + 1], t)) by {
            let w = choose|w: int| 0 <= w < chain[i].len() && chain[i][w] == t;
            if chain[i + 1] == chain[i] {
                assert(chain[i + 1][w] == t);
            } else {
                assert(chain[i + 1][w] == t);
            }
        }
        lemma_claim_chain_monotone(orig, out, chain, i + 1, j, t);
    }
}

/// Exclusivity of food targeting: two creatures seeking food in the same
/// pass never acquire the same plant; the first in iteration order wins
/// and later seekers see it claimed.
pub proof fn lemma_targeting_exclusive(
    orig: Seq<Creature>,
    out: Seq<Creature>,
    plants: Seq<Plant>,
    chain: Seq<Seq<u64>>,
    i: int,
    j: int,
)
    requires
        out.len() == orig.len(),
        chain.len() == out.len() + 1,
        forall|k: int|
            0 <= k < out.len() ==> spec_target_rel(orig[k], #[trigger] out[k], plants, chain[k])
                && chain[k + 1] == spec_claims_after(orig[k], out[k], chain[k]),
        0 <= i < j < out.len(),
        orig[i].goal == Some(Goal::WantsToEat),
        orig[j].goal == Some(Goal::WantsToEat),
    ensures
        match (out[i].goal, out[j].goal) {
            (Some(Goal::Eat(a)), Some(Goal::Eat(b))) => a.target_entity != b.target_entity,
            _ => true,
        },
{
    assert(spec_target_rel(orig[i], out[i], plants, chain[i]));
    assert(spec_target_rel(orig[j], out[j], plants, chain[j]));
    match (out[i].goal, out[j].goal) {
        (Some(Goal::Eat(a)), Some(Goal::Eat(b))) => {
            assert(chain[i + 1] == chain[i].push(a.target_entity));
            assert(spec_vec_contains(chain[i + 1], a.target_entity)) by {
                assert(chain[i + 1][chain[i].len() as int] == a.target_entity);
            }
            lemma_claim_chain_monotone(orig, out, chain, i + 1, j, a.target_entity);
            let pi = choose|pi: int|
                0 <= pi < plants.len() && {
                    let p = #[trigger] plants[pi];
                    &&& p.id == b.target_entity
                    &&& spec_available(p, chain[j])
                    &&& spec_chebyshev(orig[j].pos, p.pos) <= 99
                    &&& forall|qi: int|
                        0 <= qi < plants.len() && spec_available(#[trigger] plants[qi], chain[j])
                            ==> spec_chebyshev(orig[j].pos, plants[qi].pos) >= spec_chebyshev(
                            orig[j].pos,
                            p.pos,
                        )
                    &&& spec_first_in_scan(orig[j].pos, p, plants, chain[j])
                    &&& b.progress == 0
                    &&& b.max_progress == EAT_MAX_PROGRESS
                    &&& out[j] == Creature {
                        goal: out[j].goal,
                        requires_at: Some(RequiresAt { position: p.pos, radius: 0 }),
                        ..orig[j]
                    }
                };
            assert(!spec_vec_contains(chain[j], plants[pi].id));
        },
        _ => {},
    }
}

/// Lengths of an eat pass match the creature count.
pub proof fn lemma_eat_pass_len(
    s: Seq<Creature>,
    plants: Seq<Plant>,
    moved: Seq<u64>,
    claimed: Set<u64>,
    eaten: Set<u64>,
    work: int,
)
    ensures
        spec_eat_pass(s, plants, moved, claimed, eaten, work).0.len() == s.len(),
        spec_eat_pass(s, plants, moved, claimed, eaten, work).3.len() == s.len(),
    decreases s.len(),
{
    if s.len() > 0 {
        let step = spec_eat_step(s[0], plants, moved, claimed, eaten, work);
        lemma_eat_pass_len(s.skip(1), plants, moved, step.1, step.2, work);
    }
}

/// A target already claimed this tick is never granted by any later
/// creature of the pass.
pub proof fn lemma_claimed_never_granted(
    s: Seq<Creature>,
    plants: Seq<Plant>,
    moved: Seq<u64>,
    claimed: Set<u64>,
    eaten: Set<u64>,
    work: int,
    t: u64,
)
    requires
        claimed.contains(t),
    ensures
        forall|k: int|
            0 <= k < s.len() ==> #[trigger] spec_eat_pass(s, plants, moved, claimed, eaten, work).3[k]
                != Some(t),
    decreases s.len(),
{
    if s.len() > 0 {
        let step = spec_eat_step(s[0], plants, moved, claimed, eaten, work);
        assert(step.3 != Some(t));
        assert(step.1.contains(t));
        lemma_claimed_never_granted(s.skip(1), plants, moved, step.1, step.2, work, t);
        lemma_eat_pass_len(s, plants, moved, claimed, eaten, work);
        lemma_eat_pass_len(s.skip(1), plants, moved, step.1, step.2, work);
        let pass = spec_eat_pass(s, plants, moved, claimed, eaten, work);
        let rest = spec_eat_pass(s.skip(1), plants, moved, step.1, step.2, work);
        assert forall|k: int| 0 <= k < s.len() implies #[trigger] pass.3[k] != Some(t) by {
            if k > 0 {
                assert(pass.3[k] == rest.3[k - 1]);
            }
        }
    }
}

/// Exclusivity of eating: in one pass, the full nutrition of a plant is
/// granted to at most one creature; a later creature standing on the
/// same plant sees it claimed and never double-claims.
pub proof fn lemma_eat_exclusive(
    s: Seq<Creature>,
    plants: Seq<Plant>,
    moved: Seq<u64>,
    claimed: Set<u64>,
    eaten: Set<u64>,
    work: int,
    i: int,
    j: int,
    t: u64,
)
    requires
        0 <= i < j < s.len(),
        spec_eat_pass(s, plants, moved, claimed, eaten, work).3[i] == Some(t),
    ensures
        spec_eat_pass(s, plants, moved, claimed, eaten, work).3[j] != Some(t),
    decreases s.len(),
{
    let step = spec_eat_step(s[0], plants, moved, claimed, eaten, work);
    let pass = spec_eat_pass(s, plants, moved, claimed, eaten, work);
    let rest = spec_eat_pass(s.skip(1), plants, moved, step.1, step.2, work);
    lemma_eat_pass_len(s, plants, moved, claimed, eaten, work);
    lemma_eat_pass_len(s.skip(1), plants, moved, step.1, step.2, work);
    if i == 0 {
        assert(pass.3[0] == step.3);
        assert(step.1.contains(t));
        lemma_claimed_never_granted(s.skip(1), plants, moved, step.1, step.2, work, t);
        assert(pass.3[j] == rest.3[j - 1]);
    } else {
        assert(pass.3[i] == rest.3[i - 1]);
        assert(pass.3[j] == rest.3[j - 1]);
        lemma_eat_exclusive(s.skip(1), plants, moved, step.1, step.2, work, i - 1, j - 1, t);
    }
}

} // verus!
