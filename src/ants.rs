//! The ants: their state, the searches they make and how they step.
use vstd::prelude::*;

use crate::world::{is_passable, passable, Plant, WorldGrid};
use crate::{in_bounds, SURFACE_LEVEL, WORLD_SIZE};

verus! {

/// Where the colony brings its leaves and eats.
#[derive(Debug, Clone, Copy, PartialEq, Eq, Structural)]
pub struct NestLocation {
    pub x: usize,
    pub y: usize,
    pub z: usize,
}

impl Default for NestLocation {
    /// The centre of the surface.
    fn default() -> (r: NestLocation)
        ensures
            r == (NestLocation { x: 32, y: 32, z: SURFACE_LEVEL }),
    {
        let center = WORLD_SIZE / 2;
        NestLocation { x: center, y: center, z: SURFACE_LEVEL }
    }
}

/// A cell of the world, as a position of an ant.
#[derive(Debug, Clone, Copy, PartialEq, Eq, Structural)]
pub struct GridPosition {
    pub x: usize,
    pub y: usize,
    pub z: usize,
}

/// The role of an ant.
#[derive(Debug, Clone, Copy, PartialEq, Eq, Structural)]
pub enum Caste {
    Queen,
    Forager,
    Gardener,
    Soldier,
}

/// Hunger in thousandths; an ant starves when `current` reaches `max`.
#[derive(Debug, Clone, Copy, PartialEq, Eq, Structural)]
pub struct Hunger {
    pub current: u32,
    pub max: u32,
}

/// Hunger at which starvation comes.
pub const HUNGER_MAX: u32 = 100000;

/// Hunger from which an ant goes to eat.
pub const HUNGER_THRESHOLD: u32 = 50000;

/// Hunger a worker gains per tick; the queen gains half of it.
pub const HUNGER_RATE: u32 = 150;

impl Default for Hunger {
    fn default() -> (r: Hunger)
        ensures
            r == (Hunger { current: 0, max: HUNGER_MAX }),
    {
        Hunger { current: 0, max: HUNGER_MAX }
    }
}

/// Age in ticks.
#[derive(Debug, Clone, Copy, PartialEq, Eq, Structural)]
pub struct Age(pub u32);

/// What an ant holds.
#[derive(Debug, Clone, Copy, PartialEq, Eq, Structural)]
pub enum Carrying {
    Nothing,
    Leaf,
    Mulch,
    FungusFood,
}

/// What an ant is doing.
#[derive(Debug, Clone, Copy, PartialEq, Eq, Structural)]
pub enum Task {
    Idle,
    Wandering,
    /// Heading for a dirt cell to dig out.
    Digging { target_x: usize, target_y: usize, target_z: usize },
    /// Heading for the tree at this index of the colony's trees.
    Foraging { target_tree: usize },
    /// Heading for a cell, usually the nest, with or without a load.
    CarryingHome { home_x: usize, home_y: usize, home_z: usize },
    /// Turning leaves into mulch at the nest.
    Gardening,
    /// Going to the nest to eat.
    SeekingFood,
}

/// One ant of the colony.
#[derive(Debug, Clone, Copy, PartialEq, Eq, Structural)]
pub struct Ant {
    pub pos: GridPosition,
    pub caste: Caste,
    pub task: Task,
    pub hunger: Hunger,
    pub age: Age,
    pub carrying: Carrying,
}

/// The position lies in the world.
pub open spec fn pos_wf(p: GridPosition) -> bool {
    in_bounds(p.x as int, p.y as int, p.z as int)
}

/// The ant stands in the world and every cell its task aims at lies there too.
pub open spec fn ant_wf(a: Ant) -> bool {
    &&& pos_wf(a.pos)
    &&& match a.task {
        Task::Digging { target_x, target_y, target_z } => in_bounds(
            target_x as int,
            target_y as int,
            target_z as int,
        ),
        Task::CarryingHome { home_x, home_y, home_z } => in_bounds(
            home_x as int,
            home_y as int,
            home_z as int,
        ),
        _ => true,
    }
}

/// The nest lies in the world.
pub open spec fn nest_wf(n: NestLocation) -> bool {
    in_bounds(n.x as int, n.y as int, n.z as int)
}

/// Every tree stands in the world.
pub open spec fn trees_wf(trees: Seq<Plant>) -> bool {
    forall|i: int|
        0 <= i < trees.len() ==> #[trigger] trees[i].tree.x < WORLD_SIZE && trees[i].tree.y
            < WORLD_SIZE
}

/// A newborn ant of caste `caste` at (x, y, z): idle, empty-handed, not hungry.
pub open spec fn fresh_ant(x: usize, y: usize, z: usize, caste: Caste) -> Ant {
    Ant {
        pos: GridPosition { x, y, z },
        caste,
        task: Task::Idle,
        hunger: Hunger { current: 0, max: HUNGER_MAX },
        age: Age(0),
        carrying: Carrying::Nothing,
    }
}

impl Ant {
    /// A newborn ant, as `fresh_ant` says.
    pub fn new(x: usize, y: usize, z: usize, caste: Caste) -> (r: Ant)
        ensures
            r == fresh_ant(x, y, z, caste),
    {
        Ant {
            pos: GridPosition { x, y, z },
            caste,
            task: Task::Idle,
            hunger: Hunger::default(),
            age: Age(0),
            carrying: Carrying::Nothing,
        }
    }
}

/// Absolute value.
pub open spec fn abs(a: int) -> int {
    if a < 0 {
        -a
    } else {
        a
    }
}

/// One step from `a` toward `b`.
pub open spec fn toward(a: int, b: int) -> int {
    if a < b {
        a + 1
    } else if a > b {
        a - 1
    } else {
        a
    }
}

/// One step from `a` toward `b`, in exec form.
pub fn step_toward(a: usize, b: usize) -> (r: usize)
    ensures
        r == toward(a as int, b as int),
{
    if a < b {
        a + 1
    } else if a > b {
        a - 1
    } else {
        a
    }
}

/// The tile at (x, y, z) can be stood on.
pub open spec fn open_at(g: WorldGrid, x: int, y: int, z: int) -> bool {
    passable(g.tile(x, y, z))
}

/// Where an ant at `p` heading for (hx, hy, hz) stands after one step: on
/// the target's level it steps diagonally toward it, else along x alone,
/// else along y alone, wherever the tile can be stood on; on another level
/// it climbs or descends one level if it can.
pub open spec fn home_step(g: WorldGrid, p: GridPosition, hx: int, hy: int, hz: int) -> GridPosition {
    let nx = toward(p.x as int, hx);
    let ny = toward(p.y as int, hy);
    let nz = toward(p.z as int, hz);
    if p.z == hz {
        if open_at(g, nx, ny, p.z as int) {
            GridPosition { x: nx as usize, y: ny as usize, z: p.z }
        } else if nx != p.x && open_at(g, nx, p.y as int, p.z as int) {
            GridPosition { x: nx as usize, y: p.y, z: p.z }
        } else if ny != p.y && open_at(g, p.x as int, ny, p.z as int) {
            GridPosition { x: p.x, y: ny as usize, z: p.z }
        } else {
            p
        }
    } else if open_at(g, p.x as int, p.y as int, nz) {
        GridPosition { x: p.x, y: p.y, z: nz as usize }
    } else {
        p
    }
}

/// One step of an ant at `pos` toward (hx, hy, hz), as `home_step` says.
pub fn move_toward_home(grid: &WorldGrid, pos: GridPosition, hx: usize, hy: usize, hz: usize) -> (r:
    GridPosition)
    requires
        grid.wf(),
        pos_wf(pos),
        in_bounds(hx as int, hy as int, hz as int),
    ensures
        r == home_step(*grid, pos, hx as int, hy as int, hz as int),
        pos_wf(r),
{
    let nx = step_toward(pos.x, hx);
    let ny = step_toward(pos.y, hy);
    if pos.z == hz {
        if is_passable(grid.get(nx, ny, pos.z)) {
            GridPosition { x: nx, y: ny, z: pos.z }
        } else if nx != pos.x && is_passable(grid.get(nx, pos.y, pos.z)) {
            GridPosition { x: nx, y: pos.y, z: pos.z }
        } else if ny != pos.y && is_passable(grid.get(pos.x, ny, pos.z)) {
            GridPosition { x: pos.x, y: ny, z: pos.z }
        } else {
            pos
        }
    } else {
        let nz = step_toward(pos.z, hz);
        if is_passable(grid.get(pos.x, pos.y, nz)) {
            GridPosition { x: pos.x, y: pos.y, z: nz }
        } else {
            pos
        }
    }
}

/// Where a forager at `p` heading for the tree at (tx, ty) stands after one
/// step: off the surface level it climbs one level if it can; on it, it
/// steps diagonally toward the tree, else along x alone, else along y alone.
pub open spec fn forage_step(g: WorldGrid, p: GridPosition, tx: int, ty: int) -> GridPosition {
    let nx = toward(p.x as int, tx);
    let ny = toward(p.y as int, ty);
    if p.z != SURFACE_LEVEL {
        if p.z + 1 < WORLD_SIZE && open_at(g, p.x as int, p.y as int, p.z + 1) {
            GridPosition { x: p.x, y: p.y, z: (p.z + 1) as usize }
        } else {
            p
        }
    } else if open_at(g, nx, ny, p.z as int) {
        GridPosition { x: nx as usize, y: ny as usize, z: p.z }
    } else if open_at(g, nx, p.y as int, p.z as int) {
        GridPosition { x: nx as usize, y: p.y, z: p.z }
    } else if open_at(g, p.x as int, ny, p.z as int) {
        GridPosition { x: p.x, y: ny as usize, z: p.z }
    } else {
        p
    }
}

/// One step of a forager at `pos` toward the tree at (tx, ty), as
/// `forage_step` says.
pub fn move_toward_tree(grid: &WorldGrid, pos: GridPosition, tx: usize, ty: usize) -> (r:
    GridPosition)
    requires
        grid.wf(),
        pos_wf(pos),
        tx < WORLD_SIZE,
        ty < WORLD_SIZE,
    ensures
        r == forage_step(*grid, pos, tx as int, ty as int),
        pos_wf(r),
{
    if pos.z != SURFACE_LEVEL {
        if pos.z + 1 < WORLD_SIZE && is_passable(grid.get(pos.x, pos.y, pos.z + 1)) {
            GridPosition { x: pos.x, y: pos.y, z: pos.z + 1 }
        } else {
            pos
        }
    } else {
        let nx = step_toward(pos.x, tx);
        let ny = step_toward(pos.y, ty);
        if is_passable(grid.get(nx, ny, pos.z)) {
            GridPosition { x: nx, y: ny, z: pos.z }
        } else if is_passable(grid.get(nx, pos.y, pos.z)) {
            GridPosition { x: nx, y: pos.y, z: pos.z }
        } else if is_passable(grid.get(pos.x, ny, pos.z)) {
            GridPosition { x: pos.x, y: ny, z: pos.z }
        } else {
            pos
        }
    }
}

/// `p` and (x, y, z) are distinct cells at most one step apart on every axis.
pub open spec fn adjacent(p: GridPosition, x: int, y: int, z: int) -> bool {
    abs(x - p.x) <= 1 && abs(y - p.y) <= 1 && abs(z - p.z) <= 1 && !(x == p.x && y == p.y && z
        == p.z)
}

/// Exec form of `adjacent`.
pub fn is_adjacent(p: GridPosition, x: usize, y: usize, z: usize) -> (r: bool)
    ensures
        r == adjacent(p, x as int, y as int, z as int),
{
    let ax = if x >= p.x { x - p.x } else { p.x - x };
    let ay = if y >= p.y { y - p.y } else { p.y - y };
    let az = if z >= p.z { z - p.z } else { p.z - z };
    ax <= 1 && ay <= 1 && az <= 1 && !(x == p.x && y == p.y && z == p.z)
}

/// Where a digger at `p` heading for (tx, ty, tz) stands after one step:
/// next to the target it stays; otherwise it steps across the level toward
/// the target if the tile there can be stood on, and once above the target
/// it descends if it can.
pub open spec fn dig_step(g: WorldGrid, p: GridPosition, tx: int, ty: int, tz: int) -> GridPosition {
    let nx = toward(p.x as int, tx);
    let ny = toward(p.y as int, ty);
    if adjacent(p, tx, ty, tz) {
        p
    } else if tx != p.x || ty != p.y {
        if open_at(g, nx, ny, p.z as int) {
            GridPosition { x: nx as usize, y: ny as usize, z: p.z }
        } else {
            p
        }
    } else if tz < p.z && open_at(g, p.x as int, p.y as int, p.z - 1) {
        GridPosition { x: p.x, y: p.y, z: (p.z - 1) as usize }
    } else {
        p
    }
}

/// One step of a digger at `pos` toward (tx, ty, tz), as `dig_step` says.
pub fn move_toward_dig(grid: &WorldGrid, pos: GridPosition, tx: usize, ty: usize, tz: usize) -> (r:
    GridPosition)
    requires
        grid.wf(),
        pos_wf(pos),
        in_bounds(tx as int, ty as int, tz as int),
    ensures
        r == dig_step(*grid, pos, tx as int, ty as int, tz as int),
        pos_wf(r),
{
    if is_adjacent(pos, tx, ty, tz) {
        pos
    } else if tx != pos.x || ty != pos.y {
        let nx = step_toward(pos.x, tx);
        let ny = step_toward(pos.y, ty);
        if is_passable(grid.get(nx, ny, pos.z)) {
            GridPosition { x: nx, y: ny, z: pos.z }
        } else {
            pos
        }
    } else if tz < pos.z && is_passable(grid.get(pos.x, pos.y, pos.z - 1)) {
        GridPosition { x: pos.x, y: pos.y, z: pos.z - 1 }
    } else {
        pos
    }
}

} // verus!
