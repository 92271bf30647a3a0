//! The spatial index: a per-tick mapping from grid cell to the entities
//! occupying it, fully rebuilt every tick from ground truth so that moves,
//! spawns and despawns in the same tick can never leave it stale.

use vstd::prelude::*;
use std::collections::HashMap;
use crate::grid::Position;
use crate::entities::{Creature, Plant};

verus! {

broadcast use vstd::std_specs::hash::group_hash_axioms;

/// Cells are keyed by `x * 2^32 + y`, which is injective for the
/// non-negative coordinates that entities can occupy.
pub open spec fn spec_cell_key(p: Position) -> int {
    p.x * 0x1_0000_0000 + p.y
}

pub proof fn lemma_cell_key_injective(p: Position, q: Position)
    requires
        0 <= p.x,
        0 <= p.y,
        0 <= q.x,
        0 <= q.y,
        spec_cell_key(p) == spec_cell_key(q),
    ensures
        p == q,
{
    assert(p.x == q.x && p.y == q.y) by (nonlinear_arith)
        requires
            0 <= p.x,
            0 <= p.y < 0x1_0000_0000,
            0 <= q.x,
            0 <= q.y < 0x1_0000_0000,
            p.x * 0x1_0000_0000 + p.y == q.x * 0x1_0000_0000 + q.y,
    ;
}

pub fn cell_key(p: Position) -> (r: u64)
    requires
        0 <= p.x,
        0 <= p.y,
    ensures
        r == spec_cell_key(p),
{
    (p.x as u64) * 0x1_0000_0000u64 + (p.y as u64)
}

/// The per-tick index from occupied cell to the identifiers of the
/// entities standing on it, in world iteration order.
pub struct SpatialGrid {
    pub map: HashMap<u64, Vec<u64>>,
}

/// The identifiers among `s` (an `(id, position)` sequence) that stand at
/// `p`, in order.
pub open spec fn ids_at_spec(s: Seq<(u64, Position)>, p: Position) -> Seq<u64>
    decreases s.len(),
{
    if s.len() == 0 {
        Seq::empty()
    } else {
        ids_at_spec(s.drop_last(), p) + if s.last().1 == p {
            seq![s.last().0]
        } else {
            Seq::empty()
        }
    }
}

/// All entities of the world that occupy a cell, creatures first, each as
/// `(id, position)`.
pub open spec fn entity_seq(creatures: Seq<Creature>, plants: Seq<Plant>) -> Seq<(u64, Position)> {
    creatures.map_values(|c: Creature| (c.id, c.pos)) + plants.map_values(
        |q: Plant| (q.id, q.pos),
    )
}

impl SpatialGrid {
    /// What the index answers for cell `p`.
    pub open spec fn ids_at(&self, p: Position) -> Seq<u64> {
        let k = spec_cell_key(p);
        if self.map@.contains_key(k as u64) {
            self.map@[k as u64]@
        } else {
            Seq::empty()
        }
    }

    pub fn new() -> (r: SpatialGrid)
        ensures
            forall|p: Position| (#[trigger] r.ids_at(p)).len() == 0,
    {
        SpatialGrid { map: HashMap::new() }
    }

    /// Look up the identifiers standing at `p`; cells off the grid are
    /// never occupied.
    pub fn lookup(&self, p: Position) -> (r: Option<&Vec<u64>>)
        requires
            0 <= p.x,
            0 <= p.y,
        ensures
            match r {
                Some(v) => v@ == self.ids_at(p),
                None => self.ids_at(p).len() == 0,
            },
    {
        let k = cell_key(p);
        self.map.get(&k)
    }
}

/// Discards the previous mapping entirely and rebuilds it from every
/// existing entity's position, creatures first, so the index exactly
/// reflects the position set of all existing entities.
pub fn spatial_grid_system(
    index: &mut SpatialGrid,
    creatures: &Vec<Creature>,
    plants: &Vec<Plant>,
)
    requires
        forall|i: int|
            0 <= i < creatures@.len() ==> 0 <= (#[trigger] creatures@[i]).pos.x && 0
                <= creatures@[i].pos.y,
        forall|i: int|
            0 <= i < plants@.len() ==> 0 <= (#[trigger] plants@[i]).pos.x && 0 <= plants@[i].pos.y,
    ensures
        forall|p: Position|
            0 <= p.x && 0 <= p.y ==> #[trigger] final(index).ids_at(p) == ids_at_spec(
                entity_seq(creatures@, plants@),
                p,
            ),
{
    let ghost full = entity_seq(creatures@, plants@);
    index.map.clear();
    assert(forall|p: Position|
        0 <= p.x && 0 <= p.y ==> #[trigger] index.ids_at(p) == ids_at_spec(full.take(0), p));
    let n = creatures.len();
    for i in 0..n
        invariant
            n == creatures@.len(),
            full == entity_seq(creatures@, plants@),
            forall|j: int|
                0 <= j < creatures@.len() ==> 0 <= (#[trigger] creatures@[j]).pos.x && 0
                    <= creatures@[j].pos.y,
            forall|p: Position|
                0 <= p.x && 0 <= p.y ==> #[trigger] index.ids_at(p) == ids_at_spec(
                    full.take(i as int),
                    p,
                ),
    {
        let id = creatures[i].id;
        let pos = creatures[i].pos;
        proof {
            assert(full.take(i as int).push((id, pos)) =~= full.take(i + 1));
        }
        index_insert(index, id, pos, Ghost(full.take(i as int)));
    }
    let m = plants.len();
    for i in 0..m
        invariant
            m == plants@.len(),
            n == creatures@.len(),
            full == entity_seq(creatures@, plants@),
            forall|j: int|
                0 <= j < plants@.len() ==> 0 <= (#[trigger] plants@[j]).pos.x && 0
                    <= plants@[j].pos.y,
            forall|p: Position|
                0 <= p.x && 0 <= p.y ==> #[trigger] index.ids_at(p) == ids_at_spec(
                    full.take(n + i as int),
                    p,
                ),
    {
        let id = plants[i].id;
        let pos = plants[i].pos;
        proof {
            assert(full.take(n + i as int).push((id, pos)) =~= full.take(n + i + 1));
        }
        index_insert(index, id, pos, Ghost(full.take(n + i as int)));
    }
    proof {
        assert(full.take(n + m as int) =~= full);
    }
}

/// Appends one entity to its cell's list.
fn index_insert(index: &mut SpatialGrid, id: u64, pos: Position, Ghost(prefix): Ghost<
    Seq<(u64, Position)>,
>)
    requires
        0 <= pos.x,
        0 <= pos.y,
        forall|p: Position|
            0 <= p.x && 0 <= p.y ==> #[trigger] old(index).ids_at(p) == ids_at_spec(prefix, p),
    ensures
        forall|p: Position|
            0 <= p.x && 0 <= p.y ==> #[trigger] final(index).ids_at(p) == ids_at_spec(
                prefix.push((id, pos)),
                p,
            ),
{
    let k = cell_key(pos);
    let ghost old_ids = index.ids_at(pos);
    let list = match index.map.remove(&k) {
        Some(mut l) => {
            l.push(id);
            l
        },
        None => {
            let mut l: Vec<u64> = Vec::new();
            l.push(id);
            l
        },
    };
    assert(list@ =~= old_ids.push(id));
    index.map.insert(k, list);
    proof {
        let stepped = prefix.push((id, pos));
        assert(index.ids_at(pos) == old_ids.push(id));
        assert forall|p: Position| 0 <= p.x && 0 <= p.y implies #[trigger] index.ids_at(p)
            == ids_at_spec(stepped, p) by {
            assert(stepped.drop_last() =~= prefix);
            assert(stepped.last() == (id, pos));
            if p == pos {
                assert(ids_at_spec(stepped, p) == ids_at_spec(prefix, p) + seq![id]);
                assert(old_ids == ids_at_spec(prefix, p));
                assert(old_ids + seq![id] =~= old_ids.push(id));
            } else {
                if spec_cell_key(p) == spec_cell_key(pos) {
                    lemma_cell_key_injective(p, pos);
                    assert(false);
                }
                assert(ids_at_spec(stepped, p) =~= ids_at_spec(prefix, p));
                assert(index.ids_at(p) == old(index).ids_at(p));
            }
        }
    }
}

} // verus!
