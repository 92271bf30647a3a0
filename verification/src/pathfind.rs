//! The pathfinder: A* over 4-directional neighbors, with the edge cost
//! derived from the destination tile's kind, edges over the cost cap
//! discarded as impassable, and Manhattan distance as the heuristic.
//!
//! Since every tile's cost is at least one (see `GameGrid::wf`) and one
//! step changes the Manhattan distance by exactly one, the heuristic never
//! exceeds the true remaining cost, which is what the search needs to
//! return a minimal-cost path.

use vstd::prelude::*;
use crate::grid::{GameGrid, Position, spec_manhattan, manhattan};

verus! {

/// `b` is one of the four axis-aligned neighbors of `a`.
pub open spec fn adjacent4(a: Position, b: Position) -> bool {
    spec_manhattan(a, b) == 1
}

/// A creature standing at `a` may step onto `b`.
pub open spec fn valid_step(grid: GameGrid, a: Position, b: Position) -> bool {
    adjacent4(a, b) && grid.spec_passable(b)
}

/// Every consecutive pair of `p` is a valid step.
pub open spec fn path_ok(grid: GameGrid, p: Seq<Position>) -> bool {
    forall|i: int| 1 <= i < p.len() ==> valid_step(grid, p[i - 1], #[trigger] p[i])
}

/// `p` walks from `s` to `g` in valid steps, including both endpoints.
pub open spec fn is_path(grid: GameGrid, p: Seq<Position>, s: Position, g: Position) -> bool {
    &&& p.len() >= 1
    &&& p[0] == s
    &&& p[p.len() - 1] == g
    &&& path_ok(grid, p)
}

/// Total cost of walking `p`: the sum of the costs of every cell entered
/// after the first.
pub open spec fn path_cost(grid: GameGrid, p: Seq<Position>) -> int
    decreases p.len(),
{
    if p.len() <= 1 {
        0
    } else {
        path_cost(grid, p.drop_last()) + grid.spec_step_cost(p.last())
    }
}

/// Every cell of the grid costs exactly `k` to enter.
pub open spec fn uniform_cost(grid: GameGrid, k: int) -> bool {
    forall|p: Position| grid.spec_in_bounds(p) ==> #[trigger] grid.spec_step_cost(p) == k
}

/// The passable 4-neighbors of `p`, each with the cost of stepping onto
/// it; what the search may expand from `p`.
pub fn successors(grid: &GameGrid, p: Position) -> (r: Vec<(Position, u64)>)
    requires
        grid.wf(),
    ensures
        forall|i: int|
            0 <= i < r@.len() ==> valid_step(*grid, p, (#[trigger] r@[i]).0) && r@[i].1
                == grid.spec_step_cost(r@[i].0),
        forall|q: Position| valid_step(*grid, p, q) ==> exists|i: int|
            0 <= i < r@.len() && (#[trigger] r@[i]).0 == q,
{
    let mut r: Vec<(Position, u64)> = Vec::new();
    try_push_neighbor(grid, p, p.x as i64 + 1, p.y as i64, &mut r);
    let ghost r1 = r@;
    try_push_neighbor(grid, p, p.x as i64 - 1, p.y as i64, &mut r);
    let ghost r2 = r@;
    try_push_neighbor(grid, p, p.x as i64, p.y as i64 + 1, &mut r);
    let ghost r3 = r@;
    try_push_neighbor(grid, p, p.x as i64, p.y as i64 - 1, &mut r);
    proof {
        assert forall|q: Position| valid_step(*grid, p, q) implies exists|i: int|
            0 <= i < r@.len() && (#[trigger] r@[i]).0 == q by {
            assert(spec_manhattan(p, q) == 1);
            assert(q.x == p.x + 1 && q.y == p.y || q.x == p.x - 1 && q.y == p.y || q.x == p.x
                && q.y == p.y + 1 || q.x == p.x && q.y == p.y - 1);
            if q.x == p.x + 1 && q.y == p.y {
                let i = choose|i: int| 0 <= i < r1.len() && (#[trigger] r1[i]).0 == q;
                assert(r@[i].0 == q);
            } else if q.x == p.x - 1 && q.y == p.y {
                let i = choose|i: int| 0 <= i < r2.len() && (#[trigger] r2[i]).0 == q;
                assert(r@[i].0 == q);
            } else if q.x == p.x && q.y == p.y + 1 {
                let i = choose|i: int| 0 <= i < r3.len() && (#[trigger] r3[i]).0 == q;
                assert(r@[i].0 == q);
            } else {
                let i = choose|i: int| 0 <= i < r@.len() && (#[trigger] r@[i]).0 == q;
                assert(r@[i].0 == q);
            }
        }
    }
    r
}

/// Appends the cell at `(cx, cy)` with its cost if a creature at `p` may
/// step onto it; cells off the grid or over the cost cap are left out.
fn try_push_neighbor(grid: &GameGrid, p: Position, cx: i64, cy: i64, r: &mut Vec<(Position, u64)>)
    requires
        grid.wf(),
        forall|q: Position| q.x as i64 == cx && q.y as i64 == cy ==> adjacent4(p, q),
        forall|i: int|
            0 <= i < old(r)@.len() ==> valid_step(*grid, p, (#[trigger] old(r)@[i]).0)
                && old(r)@[i].1 == grid.spec_step_cost(old(r)@[i].0),
    ensures
        final(r)@.len() >= old(r)@.len(),
        forall|i: int| 0 <= i < old(r)@.len() ==> final(r)@[i] == old(r)@[i],
        forall|i: int|
            0 <= i < final(r)@.len() ==> valid_step(*grid, p, (#[trigger] final(r)@[i]).0)
                && final(r)@[i].1 == grid.spec_step_cost(final(r)@[i].0),
        forall|q: Position|
            valid_step(*grid, p, q) && q.x as i64 == cx && q.y as i64 == cy ==> exists|i: int|
                0 <= i < final(r)@.len() && (#[trigger] final(r)@[i]).0 == q,
{
    let w = grid.exec_width() as i64;
    let h = grid.exec_height() as i64;
    if 0 <= cx && cx < w && 0 <= cy && cy < h {
        let q = Position { x: cx as i32, y: cy as i32 };
        let cost = grid.step_cost(q);
        if cost <= crate::grid::COST_CAP {
            r.push((q, cost as u64));
            proof {
                assert forall|q2: Position|
                    valid_step(*grid, p, q2) && q2.x as i64 == cx && q2.y as i64
                        == cy implies exists|i: int|
                    0 <= i < r@.len() && (#[trigger] r@[i]).0 == q2 by {
                    assert(q2 == q);
                    assert(r@[r@.len() - 1].0 == q);
                }
            }
        } else {
            proof {
                assert forall|q2: Position|
                    valid_step(*grid, p, q2) && q2.x as i64 == cx && q2.y as i64
                        == cy implies false by {
                    assert(q2 == q);
                    assert(grid.spec_passable(q2));
                }
            }
        }
    } else {
        proof {
            assert forall|q2: Position|
                valid_step(*grid, p, q2) && q2.x as i64 == cx && q2.y as i64 == cy implies false by {
                assert(grid.spec_in_bounds(q2));
            }
        }
    }
}

/// Relies on `pathfinding::prelude::astar`: with non-negative step costs
/// and a heuristic that never exceeds the real remaining cost, it returns
/// a minimal-cost path comprising both the start and the end node, or
/// `None` exactly when no path reaches the goal. The successor set and the
/// Manhattan heuristic handed to it are this crate's verified functions,
/// and a well-formed grid makes every step cost at least one, so the
/// heuristic is admissible.
#[verifier::external_body]
pub fn calculate_astar_path(start: Position, end: Position, game_grid: &GameGrid) -> (r: Option<
    Vec<Position>,
>)
    requires
        game_grid.wf(),
    ensures
        match r {
            Some(p) => is_path(*game_grid, p@, start, end) && forall|q: Seq<Position>|
                is_path(*game_grid, q, start, end) ==> path_cost(*game_grid, q) >= path_cost(
                    *game_grid,
                    p@,
                ),
            None => forall|q: Seq<Position>| !is_path(*game_grid, q, start, end),
        },
{
    let result = pathfinding::prelude::astar(
        &start,
        |p: &Position| successors(game_grid, *p),
        |p: &Position| manhattan(*p, end) as u64,
        |p: &Position| *p == end,
    );
    result.map(|(path, _cost)| path)
}

/// Computes the waypoints a creature must walk to reach `dest`: a
/// minimal-cost path with the leading (current) cell stripped, or `None`
/// exactly when no path under the cost cap exists.
pub fn compute_waypoints(grid: &GameGrid, start: Position, dest: Position) -> (r: Option<
    Vec<Position>,
>)
    requires
        grid.wf(),
        start != dest,
    ensures
        match r {
            Some(nodes) => {
                &&& nodes@.len() >= 1
                &&& is_path(*grid, seq![start] + nodes@, start, dest)
                &&& forall|q: Seq<Position>|
                    is_path(*grid, q, start, dest) ==> path_cost(*grid, q) >= path_cost(
                        *grid,
                        seq![start] + nodes@,
                    )
                &&& forall|i: int|
                    0 <= i < nodes@.len() ==> grid.spec_passable(#[trigger] nodes@[i])
            },
            None => forall|q: Seq<Position>| !is_path(*grid, q, start, dest),
        },
{
    match calculate_astar_path(start, dest, grid) {
        None => None,
        Some(mut p) => {
            let ghost full = p@;
            assert(p@.len() >= 2) by {
                if p@.len() == 1 {
                    assert(p@[0] == start && p@[0] == dest);
                }
            }
            let _head = p.remove(0);
            proof {
                assert(seq![start] + p@ =~= full);
                assert forall|i: int| 0 <= i < p@.len() implies grid.spec_passable(
                    #[trigger] p@[i],
                ) by {
                    assert(valid_step(*grid, full[i], full[i + 1]));
                }
            }
            Some(p)
        },
    }
}

/// On a uniform-cost grid, a path's cost is its step count times the
/// per-cell cost.
pub proof fn lemma_path_cost_uniform(grid: GameGrid, p: Seq<Position>, k: int)
    requires
        uniform_cost(grid, k),
        path_ok(grid, p),
        p.len() >= 1,
    ensures
        path_cost(grid, p) == k * (p.len() - 1),
    decreases p.len(),
{
    if p.len() == 1 {
        assert(path_cost(grid, p) == 0);
        assert(k * (p.len() - 1) == 0) by (nonlinear_arith)
            requires
                p.len() == 1,
        ;
    } else {
        assert(path_ok(grid, p.drop_last())) by {
            assert(forall|i: int|
                1 <= i < p.drop_last().len() ==> valid_step(
                    grid,
                    p.drop_last()[i - 1],
                    #[trigger] p.drop_last()[i],
                ));
        }
        lemma_path_cost_uniform(grid, p.drop_last(), k);
        assert(valid_step(grid, p[p.len() - 2], p[p.len() - 1]));
        assert(grid.spec_step_cost(p.last()) == k);
        let n = p.len() as int;
        assert(path_cost(grid, p) == k * (n - 2) + k);
        assert(k * (n - 2) + k == k * (n - 1)) by (nonlinear_arith);
        assert(path_cost(grid, p) == k * (p.len() - 1));
    }
}

/// On a uniform-cost grid, a minimal-cost path is also a minimal-step
/// path: its number of waypoints is the true minimal step count.
pub proof fn lemma_uniform_min_cost_min_steps(
    grid: GameGrid,
    p: Seq<Position>,
    s: Position,
    g: Position,
    k: int,
)
    requires
        uniform_cost(grid, k),
        k >= 1,
        is_path(grid, p, s, g),
        forall|q: Seq<Position>| is_path(grid, q, s, g) ==> path_cost(grid, q) >= path_cost(
            grid,
            p,
        ),
    ensures
        forall|q: Seq<Position>| is_path(grid, q, s, g) ==> q.len() >= p.len(),
{
    assert forall|q: Seq<Position>| is_path(grid, q, s, g) implies q.len() >= p.len() by {
        lemma_path_cost_uniform(grid, p, k);
        lemma_path_cost_uniform(grid, q, k);
        assert(k * (q.len() - 1) >= k * (p.len() - 1));
        assert(q.len() - 1 >= p.len() - 1) by (nonlinear_arith)
            requires
                k >= 1,
                k * (q.len() - 1) >= k * (p.len() - 1),
        ;
    }
}

} // verus!
