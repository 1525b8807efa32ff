//! The tile grid, the leaf-bearing trees and the fungus garden.
use vstd::prelude::*;

use crate::arith::{integer_sqrt, isqrt, sat_inc};
use crate::{cell_index, in_bounds, index_of, lemma_cell_index, CELLS, SURFACE_LEVEL, WORLD_SIZE};

verus! {

/// What occupies one cell of the world.
#[derive(Debug, Clone, Copy, PartialEq, Eq, Structural)]
pub enum TileKind {
    Air,
    Surface,
    Dirt,
    Tunnel,
    Chamber,
    FungusGarden,
    TreeTrunk,
    TreeCanopy,
}

/// Ants can stand on surface, tunnel, chamber and garden floor, nowhere else.
pub open spec fn passable(t: TileKind) -> bool {
    t == TileKind::Surface || t == TileKind::Tunnel || t == TileKind::Chamber || t
        == TileKind::FungusGarden
}

/// Whether an ant can stand on a tile of kind `tile`.
pub fn is_passable(tile: TileKind) -> (r: bool)
    ensures
        r == passable(tile),
{
    match tile {
        TileKind::Surface | TileKind::Tunnel | TileKind::Chamber | TileKind::FungusGarden => true,
        _ => false,
    }
}

/// The tile a fresh world holds at height `z`: dirt below the surface level,
/// surface on it and air above.
pub open spec fn initial_tile(z: int) -> TileKind {
    if z < SURFACE_LEVEL {
        TileKind::Dirt
    } else if z == SURFACE_LEVEL {
        TileKind::Surface
    } else {
        TileKind::Air
    }
}

/// The tile kinds of the whole world, stored layer by layer.
pub struct WorldGrid {
    pub tiles: Vec<TileKind>,
}

impl WorldGrid {
    /// The grid holds one tile per cell.
    pub open spec fn wf(&self) -> bool {
        self.tiles@.len() == CELLS
    }

    /// The tile at (x, y, z).
    pub open spec fn tile(&self, x: int, y: int, z: int) -> TileKind {
        self.tiles@[cell_index(x, y, z)]
    }

    /// A world of dirt under a surface layer, with air above.
    pub fn new() -> (r: WorldGrid)
        ensures
            r.wf(),
            forall|x: int, y: int, z: int|
                in_bounds(x, y, z) ==> #[trigger] r.tile(x, y, z) == initial_tile(z),
    {
        let mut tiles: Vec<TileKind> = Vec::new();
        let below: usize = SURFACE_LEVEL * 4096;
        let top: usize = below + 4096;
        let mut i: usize = 0;
        while i < CELLS
            invariant
                i <= CELLS,
                below == 196608,
                top == 200704,
                tiles@.len() == i,
                forall|j: int|
                    0 <= j < i ==> #[trigger] tiles@[j] == (if j < below {
                        TileKind::Dirt
                    } else if j < top {
                        TileKind::Surface
                    } else {
                        TileKind::Air
                    }),
            decreases CELLS - i,
        {
            let kind = if i < below {
                TileKind::Dirt
            } else if i < top {
                TileKind::Surface
            } else {
                TileKind::Air
            };
            tiles.push(kind);
            i = i + 1;
        }
        let r = WorldGrid { tiles };
        assert forall|x: int, y: int, z: int| in_bounds(x, y, z) implies #[trigger] r.tile(
            x,
            y,
            z,
        ) == initial_tile(z) by {
            lemma_cell_index(x, y, z);
        }
        r
    }

    /// The tile at (x, y, z).
    pub fn get(&self, x: usize, y: usize, z: usize) -> (r: TileKind)
        requires
            self.wf(),
            in_bounds(x as int, y as int, z as int),
        ensures
            r == self.tile(x as int, y as int, z as int),
    {
        proof {
            lemma_cell_index(x as int, y as int, z as int);
        }
        self.tiles[index_of(x, y, z)]
    }

    /// Puts `kind` at (x, y, z) and leaves every other cell as it was.
    pub fn set(&mut self, x: usize, y: usize, z: usize, kind: TileKind)
        requires
            old(self).wf(),
            in_bounds(x as int, y as int, z as int),
        ensures
            final(self).wf(),
            final(self).tiles@ == old(self).tiles@.update(cell_index(x as int, y as int, z as int), kind),
    {
        proof {
            lemma_cell_index(x as int, y as int, z as int);
        }
        let i = index_of(x, y, z);
        self.tiles.set(i, kind);
    }

    /// Digs out (x, y, z): dirt becomes tunnel; any other tile stays and the
    /// call reports `false`.
    pub fn dig(&mut self, x: usize, y: usize, z: usize) -> (r: bool)
        requires
            old(self).wf(),
            in_bounds(x as int, y as int, z as int),
        ensures
            final(self).wf(),
            r == (old(self).tile(x as int, y as int, z as int) == TileKind::Dirt),
            final(self).tiles@ == if r {
                old(self).tiles@.update(cell_index(x as int, y as int, z as int), TileKind::Tunnel)
            } else {
                old(self).tiles@
            },
    {
        if self.get(x, y, z) == TileKind::Dirt {
            self.set(x, y, z, TileKind::Tunnel);
            true
        } else {
            false
        }
    }
}

impl Default for WorldGrid {
    fn default() -> (r: WorldGrid)
        ensures
            r.wf(),
            forall|x: int, y: int, z: int|
                in_bounds(x, y, z) ==> #[trigger] r.tile(x, y, z) == initial_tile(z),
    {
        WorldGrid::new()
    }
}

/// A tree standing on the surface at (x, y).
#[derive(Debug, Clone, Copy, PartialEq, Eq, Structural)]
pub struct Tree {
    pub x: usize,
    pub y: usize,
}

/// The harvestable leaves of a tree. `regrow_timer` is kept as state but no
/// rule reads it: leaves do not grow back.
#[derive(Debug, Clone, Copy, PartialEq, Eq, Structural)]
pub struct LeafSource {
    pub leaves_remaining: u32,
    pub max_leaves: u32,
    pub regrow_timer: u32,
}

impl Default for LeafSource {
    fn default() -> (r: LeafSource)
        ensures
            r.leaves_remaining == 20,
            r.max_leaves == 20,
            r.regrow_timer == 0,
    {
        LeafSource { leaves_remaining: 20, max_leaves: 20, regrow_timer: 0 }
    }
}

/// The z-level of a tree's widest canopy layer.
#[derive(Debug, Clone, Copy, PartialEq, Eq, Structural)]
pub struct TreeCanopyMarker {
    pub z: usize,
}

/// A tree together with its leaves and the height of its canopy.
#[derive(Debug, Clone, Copy, PartialEq, Eq, Structural)]
pub struct Plant {
    pub tree: Tree,
    pub source: LeafSource,
    pub canopy: TreeCanopyMarker,
}

/// Lowest trunk tile of a tree.
pub const TRUNK_BASE: usize = 49;

/// The tile that planting a tree at (tx, ty) leaves at (x, y, z) of `g`: a
/// trunk three tiles high on the surface, a canopy three tiles high above it
/// whose middle layer spreads to the eight neighbours that lie in the world.
pub open spec fn planted_tile(g: WorldGrid, tx: int, ty: int, x: int, y: int, z: int) -> TileKind {
    match tree_part(tx, ty, x, y, z) {
        Some(k) => k,
        None => g.tile(x, y, z),
    }
}

/// The tile that a tree planted at (tx, ty) puts at (x, y, z), if any.
pub open spec fn tree_part(tx: int, ty: int, x: int, y: int, z: int) -> Option<TileKind> {
    if x == tx && y == ty && 49 <= z <= 51 {
        Some(TileKind::TreeTrunk)
    } else if x == tx && y == ty && (z == 52 || z == 54) {
        Some(TileKind::TreeCanopy)
    } else if z == 53 && tx - 1 <= x <= tx + 1 && ty - 1 <= y <= ty + 1 {
        Some(TileKind::TreeCanopy)
    } else {
        None
    }
}

/// Grows a tree at surface position (x, y) and returns it with a full set
/// of leaves.
#[verifier::rlimit(50)]
pub fn spawn_tree(grid: &mut WorldGrid, x: usize, y: usize) -> (r: Plant)
    requires
        old(grid).wf(),
        x < WORLD_SIZE,
        y < WORLD_SIZE,
    ensures
        final(grid).wf(),
        forall|a: int, b: int, c: int|
            in_bounds(a, b, c) ==> #[trigger] final(grid).tile(a, b, c) == planted_tile(
                *old(grid),
                x as int,
                y as int,
                a,
                b,
                c,
            ),
        r.tree == (Tree { x, y }),
        r.source == (LeafSource { leaves_remaining: 20, max_leaves: 20, regrow_timer: 0 }),
        r.canopy.z == 53,
{
    let ghost g0 = *grid;
    grid.set(x, y, TRUNK_BASE, TileKind::TreeTrunk);
    grid.set(x, y, TRUNK_BASE + 1, TileKind::TreeTrunk);
    grid.set(x, y, TRUNK_BASE + 2, TileKind::TreeTrunk);
    grid.set(x, y, TRUNK_BASE + 3, TileKind::TreeCanopy);
    grid.set(x, y, TRUNK_BASE + 5, TileKind::TreeCanopy);
    let ghost g1 = *grid;
    let xl: usize = if x > 0 { x - 1 } else { 0 };
    let xh: usize = if x + 1 < WORLD_SIZE { x + 1 } else { x };
    let yl: usize = if y > 0 { y - 1 } else { 0 };
    let yh: usize = if y + 1 < WORLD_SIZE { y + 1 } else { y };
    let cz: usize = TRUNK_BASE + 4;
    grid.set(xl, yl, cz, TileKind::TreeCanopy);
    grid.set(x, yl, cz, TileKind::TreeCanopy);
    grid.set(xh, yl, cz, TileKind::TreeCanopy);
    grid.set(xl, y, cz, TileKind::TreeCanopy);
    grid.set(x, y, cz, TileKind::TreeCanopy);
    grid.set(xh, y, cz, TileKind::TreeCanopy);
    grid.set(xl, yh, cz, TileKind::TreeCanopy);
    grid.set(x, yh, cz, TileKind::TreeCanopy);
    grid.set(xh, yh, cz, TileKind::TreeCanopy);
    assert forall|a: int, b: int, c: int| in_bounds(a, b, c) implies #[trigger] grid.tile(
        a,
        b,
        c,
    ) == planted_tile(g0, x as int, y as int, a, b, c) by {
        lemma_cell_index(a, b, c);
        lemma_cell_index(x as int, y as int, 49);
        lemma_cell_index(x as int, y as int, 50);
        lemma_cell_index(x as int, y as int, 51);
        lemma_cell_index(x as int, y as int, 52);
        lemma_cell_index(x as int, y as int, 54);
        lemma_cell_index(xl as int, yl as int, 53);
        lemma_cell_index(x as int, yl as int, 53);
        lemma_cell_index(xh as int, yl as int, 53);
        lemma_cell_index(xl as int, y as int, 53);
        lemma_cell_index(x as int, y as int, 53);
        lemma_cell_index(xh as int, y as int, 53);
        lemma_cell_index(xl as int, yh as int, 53);
        lemma_cell_index(x as int, yh as int, 53);
        lemma_cell_index(xh as int, yh as int, 53);
    }
    Plant {
        tree: Tree { x, y },
        source: LeafSource { leaves_remaining: 20, max_leaves: 20, regrow_timer: 0 },
        canopy: TreeCanopyMarker { z: cz },
    }
}

/// Millionths of a food unit that make one unit.
pub const GROWTH_ONE: u32 = 1000000;

/// The colony's fungus garden: raw leaves, mulch made from them, food grown
/// on the mulch, and growth toward the next unit of food in millionths.
#[derive(Debug, Clone, Copy, PartialEq, Eq, Structural)]
pub struct FungusGarden {
    pub leaves: u32,
    pub mulch: u32,
    pub food: u32,
    pub growth_progress: u32,
}

/// Growth, in millionths of a food unit, that `mulch` units of mulch give in
/// one tick: `0.005 * sqrt(mulch)`, rounded down.
pub open spec fn growth_rate(mulch: nat) -> nat {
    isqrt(25000000 * mulch)
}

/// The garden after one tick of fungus growth. Without mulch nothing
/// happens. Otherwise the growth of the tick is added, and each whole unit
/// of progress becomes a unit of food and uses up a unit of mulch.
pub open spec fn grown(g: FungusGarden) -> FungusGarden {
    if g.mulch == 0 {
        g
    } else {
        let total = g.growth_progress + growth_rate(g.mulch as nat);
        let units = total / 1000000;
        FungusGarden {
            leaves: g.leaves,
            mulch: if units <= g.mulch { (g.mulch - units) as u32 } else { 0 },
            food: if g.food + units <= u32::MAX { (g.food + units) as u32 } else { u32::MAX },
            growth_progress: (total % 1000000) as u32,
        }
    }
}

/// The garden after a gardener's attempt to turn a leaf into mulch.
pub open spec fn processed(g: FungusGarden) -> FungusGarden {
    if g.leaves > 0 {
        FungusGarden { leaves: (g.leaves - 1) as u32, mulch: sat_inc(g.mulch), ..g }
    } else {
        g
    }
}

impl Default for FungusGarden {
    fn default() -> (r: FungusGarden)
        ensures
            r == (FungusGarden { leaves: 0, mulch: 0, food: 10, growth_progress: 0 }),
    {
        FungusGarden { leaves: 0, mulch: 0, food: 10, growth_progress: 0 }
    }
}

impl FungusGarden {
    /// Growth toward the next unit of food stays below one unit.
    pub open spec fn wf(&self) -> bool {
        self.growth_progress < GROWTH_ONE
    }

    /// A forager drops off a leaf; the count holds at `u32::MAX`.
    pub fn add_leaf(&mut self)
        ensures
            final(self).leaves == sat_inc(old(self).leaves),
            final(self).mulch == old(self).mulch,
            final(self).food == old(self).food,
            final(self).growth_progress == old(self).growth_progress,
    {
        self.leaves = self.leaves.saturating_add(1);
    }

    /// A gardener turns one leaf into mulch. Without leaves this fails and
    /// changes nothing.
    pub fn process_leaf(&mut self) -> (r: bool)
        ensures
            r == (old(self).leaves > 0),
            *final(self) == processed(*old(self)),
            !r ==> *final(self) == *old(self),
            r && old(self).mulch < u32::MAX ==> final(self).leaves == old(self).leaves - 1
                && final(self).mulch == old(self).mulch + 1,
            final(self).food == old(self).food,
            final(self).growth_progress == old(self).growth_progress,
    {
        if self.leaves > 0 {
            self.leaves = self.leaves - 1;
            self.mulch = self.mulch.saturating_add(1);
            true
        } else {
            false
        }
    }

    /// An ant eats one unit of food. Without food this fails and changes
    /// nothing.
    pub fn consume_food(&mut self) -> (r: bool)
        ensures
            r == (old(self).food > 0),
            *final(self) == (if r {
                FungusGarden { food: (old(self).food - 1) as u32, ..*old(self) }
            } else {
                *old(self)
            }),
    {
        if self.food > 0 {
            self.food = self.food - 1;
            true
        } else {
            false
        }
    }

    /// One tick of fungus growth.
    pub fn grow(&mut self)
        requires
            old(self).wf(),
        ensures
            final(self).wf(),
            *final(self) == grown(*old(self)),
    {
        if self.mulch == 0 {
            return;
        }
        let rate = integer_sqrt(25000000u64 * self.mulch as u64);
        assert(rate * rate <= 25000000u64 * self.mulch as u64);
        assert(rate <= 0x1_0000_0000) by (nonlinear_arith)
            requires
                rate * rate <= 25000000u64 * u32::MAX,
        ;
        let total: u64 = self.growth_progress as u64 + rate;
        let units: u64 = total / 1000000;
        self.growth_progress = (total % 1000000) as u32;
        self.mulch = if units <= self.mulch as u64 { self.mulch - units as u32 } else { 0 };
        self.food = if self.food as u64 + units <= u32::MAX as u64 {
            self.food + units as u32
        } else {
            u32::MAX
        };
    }
}

/// The garden after `n` ticks of fungus growth.
pub open spec fn grown_times(g: FungusGarden, n: nat) -> FungusGarden
    decreases n,
{
    if n == 0 {
        g
    } else {
        grown(grown_times(g, (n - 1) as nat))
    }
}

/// Without mulch, any number of growth ticks changes nothing: neither food
/// nor growth progress moves.
pub proof fn lemma_no_growth_without_mulch(g: FungusGarden, n: nat)
    requires
        g.mulch == 0,
    ensures
        grown_times(g, n) == g,
    decreases n,
{
    if n > 0 {
        lemma_no_growth_without_mulch(g, (n - 1) as nat);
    }
}

/// Processing a leaf fails and changes no counter when there are no
/// leaves; with `n > 0` leaves it succeeds, leaving `n - 1` leaves and one
/// more unit of mulch.
pub proof fn lemma_process_leaf(g: FungusGarden)
    requires
        g.mulch < u32::MAX,
    ensures
        g.leaves == 0 ==> processed(g) == g,
        g.leaves > 0 ==> processed(g) == (FungusGarden {
            leaves: (g.leaves - 1) as u32,
            mulch: (g.mulch + 1) as u32,
            ..g
        }),
{
}

/// The z-level that a viewer of the world is looking at.
#[derive(Debug, Clone, Copy, PartialEq, Eq, Structural)]
pub struct CurrentZLevel(pub usize);

impl Default for CurrentZLevel {
    fn default() -> (r: CurrentZLevel)
        ensures
            r.0 == SURFACE_LEVEL,
    {
        CurrentZLevel(SURFACE_LEVEL)
    }
}

impl CurrentZLevel {
    /// One level up, unless already at the top of the world.
    pub fn go_up(&mut self)
        ensures
            final(self).0 == if old(self).0 < WORLD_SIZE - 1 {
                old(self).0 + 1
            } else {
                old(self).0 as int
            },
    {
        if self.0 < WORLD_SIZE - 1 {
            self.0 = self.0 + 1;
        }
    }

    /// One level down, unless already at the bottom.
    pub fn go_down(&mut self)
        ensures
            final(self).0 == if old(self).0 > 0 {
                old(self).0 - 1
            } else {
                old(self).0 as int
            },
    {
        if self.0 > 0 {
            self.0 = self.0 - 1;
        }
    }
}

/// Where a z-level lies relative to the ground.
pub fn z_level_label(z: usize) -> (r: &'static str)
    ensures
        z > SURFACE_LEVEL ==> r@ == "(above ground)"@,
        z == SURFACE_LEVEL ==> r@ == "(surface)"@,
        z < SURFACE_LEVEL ==> r@ == "(underground)"@,
{
    if z > SURFACE_LEVEL {
        "(above ground)"
    } else if z == SURFACE_LEVEL {
        "(surface)"
    } else {
        "(underground)"
    }
}

} // verus!
