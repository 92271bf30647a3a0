//! The terrain grid: tiles with a kind and a move cost, grid-coordinate
//! positions, Manhattan distance, and the band-territory radius test.

use vstd::prelude::*;

verus! {

/// A cell coordinate on the grid.
#[derive(Clone, Copy, PartialEq, Eq, Structural, Hash, Debug)]
pub struct Position {
    pub x: i32,
    pub y: i32,
}

/// What a tile is made of; the kind decides how its stored move cost is
/// turned into a traversal cost.
#[derive(Clone, Copy, PartialEq, Eq, Structural, Debug)]
pub enum TileKind {
    Empty,
    Dirt,
    Water,
}

/// One terrain tile.
#[derive(Clone, Copy, PartialEq, Eq, Structural, Debug)]
pub struct Tile {
    pub kind: TileKind,
    pub move_cost: i32,
}

/// The fixed terrain of the world: a rectangle of tiles, row-major
/// (`tiles[y][x]`), immutable during a tick.
pub struct GameGrid {
    pub tiles: Vec<Vec<Tile>>,
}

/// Traversal cost of entering an open tile.
pub const EMPTY_TILE_COST: i64 = 10;

/// Multiplier applied to a water tile's stored move cost.
pub const WATER_COST_FACTOR: i64 = 10;

/// Edges costing more than this are treated as impassable.
pub const COST_CAP: i64 = 1000;

pub open spec fn abs_int(i: int) -> int {
    if i < 0 { -i } else { i }
}

/// Manhattan distance between two cells.
pub open spec fn spec_manhattan(a: Position, b: Position) -> int {
    abs_int(a.x - b.x) + abs_int(a.y - b.y)
}

/// Manhattan distance, computed without overflow for any two positions.
pub fn manhattan(a: Position, b: Position) -> (r: i64)
    ensures
        r == spec_manhattan(a, b),
{
    let dx: i64 = a.x as i64 - b.x as i64;
    let dy: i64 = a.y as i64 - b.y as i64;
    let ax: i64 = if dx < 0 { -dx } else { dx };
    let ay: i64 = if dy < 0 { -dy } else { dy };
    ax + ay
}

/// Squared Euclidean distance from `pos` to `center` exceeds `radius`
/// squared: the creature is outside the band's territory.
pub open spec fn spec_outside_band_radius(pos: Position, center: Position, radius: i64) -> bool {
    let dx = center.x - pos.x;
    let dy = center.y - pos.y;
    dx * dx + dy * dy > radius * radius
}

/// Territory test used by the band coordinator and the goal planner.
pub fn is_outside_band_radius(pos: Position, center: Position, radius: i64) -> (r: bool)
    ensures
        r == spec_outside_band_radius(pos, center, radius),
{
    let dx: i128 = center.x as i128 - pos.x as i128;
    let dy: i128 = center.y as i128 - pos.y as i128;
    let r: i128 = radius as i128;
    proof {
        assert(0 <= dx * dx <= 0x1_0000_0000_0000_0000 && 0 <= dy * dy
            <= 0x1_0000_0000_0000_0000) by (nonlinear_arith)
            requires
                -0x1_0000_0000 <= dx <= 0x1_0000_0000,
                -0x1_0000_0000 <= dy <= 0x1_0000_0000,
        ;
        assert(0 <= r * r <= 0x4000_0000_0000_0000_0000_0000_0000_0000) by (nonlinear_arith)
            requires
                -0x8000_0000_0000_0000 <= r <= 0x8000_0000_0000_0000,
        ;
    }
    dx * dx + dy * dy > r * r
}

impl GameGrid {
    pub open spec fn height(&self) -> int {
        self.tiles@.len() as int
    }

    pub open spec fn width(&self) -> int {
        if self.tiles@.len() == 0 {
            0
        } else {
            self.tiles@[0]@.len() as int
        }
    }

    /// A usable terrain: non-degenerate, rectangular, with a bounded
    /// positive stored cost wherever that cost enters the traversal cost
    /// (dirt and water; open tiles have a flat cost and may store
    /// anything). Positive traversal costs keep the Manhattan heuristic
    /// admissible for the pathfinder.
    pub open spec fn wf(&self) -> bool {
        &&& 1 <= self.height() <= 1000000
        &&& 1 <= self.width() <= 1000000
        &&& forall|y: int|
            0 <= y < self.height() ==> (#[trigger] self.tiles@[y])@.len() == self.width()
        &&& forall|y: int, x: int|
            0 <= y < self.height() && 0 <= x < self.width() ==> match (
            #[trigger] self.tiles@[y]@[x]).kind {
                TileKind::Empty => true,
                TileKind::Dirt => 1 <= self.tiles@[y]@[x].move_cost <= 1000000,
                TileKind::Water => 1 <= self.tiles@[y]@[x].move_cost <= 1000000,
            }
    }

    pub open spec fn spec_in_bounds(&self, p: Position) -> bool {
        0 <= p.x < self.width() && 0 <= p.y < self.height()
    }

    pub open spec fn tile_at(&self, p: Position) -> Tile {
        self.tiles@[p.y as int]@[p.x as int]
    }

    /// Cost of stepping onto the tile at `p`: flat for open tiles, the
    /// stored cost for dirt, and the stored cost heavily multiplied for
    /// water.
    pub open spec fn spec_step_cost(&self, p: Position) -> int {
        match self.tile_at(p).kind {
            TileKind::Empty => EMPTY_TILE_COST as int,
            TileKind::Dirt => self.tile_at(p).move_cost as int,
            TileKind::Water => self.tile_at(p).move_cost * (WATER_COST_FACTOR as int),
        }
    }

    /// A cell can be stepped onto if it is on the grid and its cost is
    /// under the cap.
    pub open spec fn spec_passable(&self, p: Position) -> bool {
        self.spec_in_bounds(p) && self.spec_step_cost(p) <= COST_CAP as int
    }

    pub fn exec_height(&self) -> (r: usize)
        ensures
            r == self.height(),
    {
        self.tiles.len()
    }

    pub fn exec_width(&self) -> (r: usize)
        ensures
            r == self.width(),
    {
        if self.tiles.len() == 0 {
            0
        } else {
            self.tiles[0].len()
        }
    }

    pub fn in_bounds(&self, p: Position) -> (r: bool)
        ensures
            r == self.spec_in_bounds(p),
    {
        let w = self.exec_width();
        let h = self.exec_height();
        0 <= p.x && (p.x as usize) < w && 0 <= p.y && (p.y as usize) < h
    }

    pub fn step_cost(&self, p: Position) -> (r: i64)
        requires
            self.wf(),
            self.spec_in_bounds(p),
        ensures
            r == self.spec_step_cost(p),
    {
        let tile = self.tiles[p.y as usize][p.x as usize];
        match tile.kind {
            TileKind::Empty => EMPTY_TILE_COST,
            TileKind::Dirt => tile.move_cost as i64,
            TileKind::Water => tile.move_cost as i64 * WATER_COST_FACTOR,
        }
    }

    pub fn passable(&self, p: Position) -> (r: bool)
        requires
            self.wf(),
        ensures
            r == self.spec_passable(p),
    {
        self.in_bounds(p) && self.step_cost(p) <= COST_CAP
    }
}

} // verus!
