//! What one ant does in one tick, stage by stage.
use vstd::prelude::*;

use crate::ants::{
    abs, adjacent, ant_wf, dig_step, forage_step, home_step, is_adjacent, move_toward_home,
    move_toward_tree, Hunger, HUNGER_RATE, HUNGER_THRESHOLD, move_toward_dig, nest_wf, open_at, pos_wf, trees_wf, Ant, Carrying, Caste,
    GridPosition, NestLocation, Task,
};
use crate::pheromones::{clamp_scent, PheromoneGrids, PheromoneType};
use crate::search::{
    diggable_near, dig_target, find_diggable_tile, find_forage_target, find_nearest_tree,
    find_pheromone_dig_target, forage_target, nearest_tree, NOTICE_LEVEL,
};
use crate::arith::sat_inc;
use crate::world::{is_passable, processed, FungusGarden, LeafSource, Plant, TileKind, WorldGrid};
use crate::{cell_index, in_bounds, SURFACE_LEVEL};

verus! {

/// The random draws one ant may use in one tick.
#[derive(Debug, Clone, Copy, PartialEq, Eq, Structural)]
pub struct TickDraws {
    /// Came up with chance 3 in 10: an idle forager goes foraging.
    pub forage: bool,
    /// Came up with chance 5 in 10: an idle gardener heads for the nest.
    pub garden: bool,
    /// Came up with chance 1 in 10: an idle ant digs next to itself.
    pub dig: bool,
    /// Uniform in `[0, total_weight)`: picks a wandering ant's direction.
    pub roll: u64,
    /// Came up with chance 1 in 30: a wandering ant stops to think again.
    pub rest: bool,
}

/// x offset of direction `d`: north, south, east, west.
pub open spec fn dir_dx(d: int) -> int {
    if d == 2 {
        1
    } else if d == 3 {
        -1
    } else {
        0
    }
}

/// y offset of direction `d`: north, south, east, west.
pub open spec fn dir_dy(d: int) -> int {
    if d == 0 {
        1
    } else if d == 1 {
        -1
    } else {
        0
    }
}

/// Scent at (a, b, z) that draws a wanderer: dig, forage and home together.
pub open spec fn influence(ph: PheromoneGrids, a: int, b: int, z: int) -> int {
    ph.level(PheromoneType::Dig, a, b, z) + ph.level(PheromoneType::Forage, a, b, z) + ph.level(
        PheromoneType::Home,
        a,
        b,
        z,
    )
}

/// Weight, in billionths, of a wanderer at `p` stepping in direction `d`:
/// zero off the world or onto a tile that cannot be stood on; otherwise
/// `1 + 5 dig + 3 forage + 2 home` at the target, times `1 - 0.9 avoid`.
pub open spec fn move_weight(g: WorldGrid, ph: PheromoneGrids, p: GridPosition, d: int) -> int {
    let a = p.x + dir_dx(d);
    let b = p.y + dir_dy(d);
    let z = p.z as int;
    if !in_bounds(a, b, z) || !open_at(g, a, b, z) {
        0
    } else {
        (10000 + 5 * ph.level(PheromoneType::Dig, a, b, z) + 3 * ph.level(
            PheromoneType::Forage,
            a,
            b,
            z,
        ) + 2 * ph.level(PheromoneType::Home, a, b, z)) * (100000 - 9 * ph.level(
            PheromoneType::Avoid,
            a,
            b,
            z,
        ))
    }
}

/// Sum of the four direction weights.
pub open spec fn total_weight(g: WorldGrid, ph: PheromoneGrids, p: GridPosition) -> int {
    move_weight(g, ph, p, 0) + move_weight(g, ph, p, 1) + move_weight(g, ph, p, 2) + move_weight(
        g,
        ph,
        p,
        3,
    )
}

/// The direction that `roll` picks by cumulative weight: the first whose
/// running total exceeds it.
pub open spec fn pick(w0: int, w1: int, w2: int, w3: int, roll: int) -> int {
    if roll < w0 {
        0
    } else if roll < w0 + w1 {
        1
    } else if roll < w0 + w1 + w2 {
        2
    } else {
        3
    }
}

/// The direction a wanderer at `p` takes for draw `roll`.
pub open spec fn wander_dir(g: WorldGrid, ph: PheromoneGrids, p: GridPosition, roll: int) -> int {
    pick(
        move_weight(g, ph, p, 0),
        move_weight(g, ph, p, 1),
        move_weight(g, ph, p, 2),
        move_weight(g, ph, p, 3),
        roll,
    )
}

/// Where a wanderer at `p` stands after draw `roll`: it stays put when no
/// direction has weight.
pub open spec fn wander_pos(g: WorldGrid, ph: PheromoneGrids, p: GridPosition, roll: int) -> GridPosition {
    if total_weight(g, ph, p) == 0 {
        p
    } else {
        let d = wander_dir(g, ph, p, roll);
        GridPosition { x: (p.x + dir_dx(d)) as usize, y: (p.y + dir_dy(d)) as usize, z: p.z }
    }
}

/// Whether a wanderer leaving `p` for `q` lays a trace of scent `k` (forage
/// or home) at `p`: the scent drawing it to `q` is above the notice level
/// and `q` holds more than a trace of `k`.
pub open spec fn reinforces(ph: PheromoneGrids, p: GridPosition, q: GridPosition, k: PheromoneType) -> bool {
    &&& p != q
    &&& influence(ph, q.x as int, q.y as int, q.z as int) > NOTICE_LEVEL
    &&& ph.level(k, q.x as int, q.y as int, q.z as int) > TRAIL_LEVEL
}

/// Scent above which a wanderer strengthens the trail it follows.
pub const TRAIL_LEVEL: u32 = 500;

/// Scent a wanderer lays to strengthen a trail.
pub const TRAIL_BOOST: u32 = 100;

/// Field `k` of `ph` after a wanderer left `p` for `q`.
pub open spec fn trail_field(ph: PheromoneGrids, p: GridPosition, q: GridPosition, k: PheromoneType) -> Seq<u32> {
    if reinforces(ph, p, q, k) {
        ph.field(k).update(
            cell_index(p.x as int, p.y as int, p.z as int),
            clamp_scent(ph.level(k, p.x as int, p.y as int, p.z as int) + TRAIL_BOOST),
        )
    } else {
        ph.field(k)
    }
}

/// The fields after a step from `p` to `q`: forage and home trails as
/// `trail_field` says, dig and avoid unchanged.
pub open spec fn trail_laid(old: PheromoneGrids, new: PheromoneGrids, p: GridPosition, q: GridPosition) -> bool {
    &&& new.field(PheromoneType::Forage) == trail_field(old, p, q, PheromoneType::Forage)
    &&& new.field(PheromoneType::Home) == trail_field(old, p, q, PheromoneType::Home)
    &&& new.field(PheromoneType::Dig) == old.field(PheromoneType::Dig)
    &&& new.field(PheromoneType::Avoid) == old.field(PheromoneType::Avoid)
}

/// Weight of a wanderer at `pos` stepping in direction `d`, as
/// `move_weight` says.
pub fn direction_weight(grid: &WorldGrid, ph: &PheromoneGrids, pos: GridPosition, d: usize) -> (r:
    u64)
    requires
        grid.wf(),
        ph.wf(),
        pos_wf(pos),
        d < 4,
    ensures
        r == move_weight(*grid, *ph, pos, d as int),
        r <= 11000000000,
{
    let dx: i64 = if d == 2 { 1 } else if d == 3 { -1 } else { 0 };
    let dy: i64 = if d == 0 { 1 } else if d == 1 { -1 } else { 0 };
    let a = pos.x as i64 + dx;
    let b = pos.y as i64 + dy;
    if a < 0 || a >= 64 || b < 0 || b >= 64 {
        return 0;
    }
    let (a, b) = (a as usize, b as usize);
    if !is_passable(grid.get(a, b, pos.z)) {
        return 0;
    }
    let dig = ph.get(PheromoneType::Dig, a, b, pos.z) as u64;
    let forage = ph.get(PheromoneType::Forage, a, b, pos.z) as u64;
    let home = ph.get(PheromoneType::Home, a, b, pos.z) as u64;
    let avoid = ph.get(PheromoneType::Avoid, a, b, pos.z) as u64;
    let pull: u64 = 10000 + 5 * dig + 3 * forage + 2 * home;
    let damp: u64 = 100000 - 9 * avoid;
    assert(pull * damp <= 11000000000) by (nonlinear_arith)
        requires
            pull <= 110000,
            damp <= 100000,
    ;
    pull * damp
}

/// The four direction weights of a wanderer at `pos`: north, south, east,
/// west.
pub fn move_weights(grid: &WorldGrid, ph: &PheromoneGrids, pos: GridPosition) -> (r: (
    u64,
    u64,
    u64,
    u64,
))
    requires
        grid.wf(),
        ph.wf(),
        pos_wf(pos),
    ensures
        r.0 == move_weight(*grid, *ph, pos, 0),
        r.1 == move_weight(*grid, *ph, pos, 1),
        r.2 == move_weight(*grid, *ph, pos, 2),
        r.3 == move_weight(*grid, *ph, pos, 3),
        r.0 + r.1 + r.2 + r.3 == total_weight(*grid, *ph, pos),
        r.0 <= 11000000000 && r.1 <= 11000000000 && r.2 <= 11000000000 && r.3 <= 11000000000,
{
    (
        direction_weight(grid, ph, pos, 0),
        direction_weight(grid, ph, pos, 1),
        direction_weight(grid, ph, pos, 2),
        direction_weight(grid, ph, pos, 3),
    )
}

/// The direction that `roll` picks, as `pick` says.
pub fn choose_direction(w0: u64, w1: u64, w2: u64, w3: u64, roll: u64) -> (r: usize)
    requires
        w0 <= 11000000000,
        w1 <= 11000000000,
        w2 <= 11000000000,
        w3 <= 11000000000,
    ensures
        r == pick(w0 as int, w1 as int, w2 as int, w3 as int, roll as int),
{
    if roll < w0 {
        0
    } else if roll < w0 + w1 {
        1
    } else if roll < w0 + w1 + w2 {
        2
    } else {
        3
    }
}

/// A wanderer at `pos` takes one step in the direction that `roll` picks,
/// where `roll` is uniform below the total weight, and strengthens the
/// trail it follows. With no direction open it stays put.
pub fn try_pheromone_biased_move(
    pos: &mut GridPosition,
    grid: &WorldGrid,
    ph: &mut PheromoneGrids,
    roll: u64,
)
    requires
        grid.wf(),
        old(ph).wf(),
        pos_wf(*old(pos)),
        total_weight(*grid, *old(ph), *old(pos)) > 0 ==> roll < total_weight(
            *grid,
            *old(ph),
            *old(pos),
        ),
    ensures
        final(ph).wf(),
        *final(pos) == wander_pos(*grid, *old(ph), *old(pos), roll as int),
        pos_wf(*final(pos)),
        trail_laid(*old(ph), *final(ph), *old(pos), *final(pos)),
{
    let (w0, w1, w2, w3) = move_weights(grid, ph, *pos);
    if w0 + w1 + w2 + w3 == 0 {
        return;
    }
    let d = choose_direction(w0, w1, w2, w3, roll);
    let ghost g = *ph;
    let p = *pos;
    let nx: usize = if d == 2 { p.x + 1 } else if d == 3 { p.x - 1 } else { p.x };
    let ny: usize = if d == 0 { p.y + 1 } else if d == 1 { p.y - 1 } else { p.y };
    let q = GridPosition { x: nx, y: ny, z: p.z };
    assert(move_weight(*grid, g, p, d as int) > 0);
    let dig = ph.get(PheromoneType::Dig, nx, ny, p.z);
    let forage = ph.get(PheromoneType::Forage, nx, ny, p.z);
    let home = ph.get(PheromoneType::Home, nx, ny, p.z);
    if dig + forage + home > NOTICE_LEVEL {
        if forage > TRAIL_LEVEL {
            ph.add(PheromoneType::Forage, p.x, p.y, p.z, TRAIL_BOOST as i32);
        }
        if home > TRAIL_LEVEL {
            ph.add(PheromoneType::Home, p.x, p.y, p.z, TRAIL_BOOST as i32);
        }
    }
    *pos = q;
}

/// `p` is the nest.
pub open spec fn at_nest(p: GridPosition, nest: NestLocation) -> bool {
    p.x == nest.x && p.y == nest.y && p.z == nest.z
}

/// Heading for the nest.
pub open spec fn go_home(nest: NestLocation) -> Task {
    Task::CarryingHome { home_x: nest.x, home_y: nest.y, home_z: nest.z }
}

/// The task an idle ant takes up, in order of priority: a gardener with
/// leaves waiting gardens at the nest or heads there; a forager that senses
/// forage scent goes for the nearest tree with leaves; an ant near dirt that
/// dig scent points to goes to dig it; then, by chance, a forager goes for
/// the nearest tree with leaves, a gardener heads for the nest, or any ant
/// digs the dirt next to it; failing all these it wanders.
pub open spec fn idle_choice(
    g: WorldGrid,
    ph: PheromoneGrids,
    trees: Seq<Plant>,
    leaves: u32,
    nest: NestLocation,
    a: Ant,
    d: TickDraws,
) -> Task {
    let p = a.pos;
    if a.caste == Caste::Gardener && leaves > 0 {
        if at_nest(p, nest) {
            Task::Gardening
        } else {
            go_home(nest)
        }
    } else if a.caste == Caste::Forager && forage_target(ph, trees, p) is Some {
        Task::Foraging { target_tree: forage_target(ph, trees, p)->Some_0 }
    } else if dig_target(g, ph, p) is Some {
        let t = dig_target(g, ph, p)->Some_0;
        Task::Digging { target_x: t.0, target_y: t.1, target_z: t.2 }
    } else if a.caste == Caste::Forager && d.forage {
        match nearest_tree(trees, p.x as int, p.y as int) {
            Some(i) => Task::Foraging { target_tree: i },
            None => Task::Wandering,
        }
    } else if a.caste == Caste::Gardener && d.garden {
        go_home(nest)
    } else if d.dig {
        match diggable_near(g, p) {
            Some(t) => Task::Digging { target_x: t.0, target_y: t.1, target_z: t.2 },
            None => Task::Wandering,
        }
    } else {
        Task::Wandering
    }
}

/// The task an idle ant takes up, as `idle_choice` says.
pub fn choose_idle_task(
    ant: &Ant,
    grid: &WorldGrid,
    ph: &PheromoneGrids,
    trees: &Vec<Plant>,
    leaves: u32,
    nest: NestLocation,
    draws: TickDraws,
) -> (r: Task)
    requires
        grid.wf(),
        ph.wf(),
        pos_wf(ant.pos),
        trees_wf(trees@),
        nest_wf(nest),
    ensures
        r == idle_choice(*grid, *ph, trees@, leaves, nest, *ant, draws),
        ant_wf(Ant { task: r, ..*ant }),
{
    let p = ant.pos;
    if ant.caste == Caste::Gardener && leaves > 0 {
        if p.x == nest.x && p.y == nest.y && p.z == nest.z {
            return Task::Gardening;
        } else {
            return Task::CarryingHome { home_x: nest.x, home_y: nest.y, home_z: nest.z };
        }
    }
    if ant.caste == Caste::Forager {
        if let Some(i) = find_forage_target(p, ph, trees) {
            return Task::Foraging { target_tree: i };
        }
    }
    if let Some(t) = find_pheromone_dig_target(p, grid, ph) {
        return Task::Digging { target_x: t.0, target_y: t.1, target_z: t.2 };
    }
    if ant.caste == Caste::Forager && draws.forage {
        match find_nearest_tree(p, trees) {
            Some(i) => Task::Foraging { target_tree: i },
            None => Task::Wandering,
        }
    } else if ant.caste == Caste::Gardener && draws.garden {
        Task::CarryingHome { home_x: nest.x, home_y: nest.y, home_z: nest.z }
    } else if draws.dig {
        match find_diggable_tile(p, grid) {
            Some(t) => Task::Digging { target_x: t.0, target_y: t.1, target_z: t.2 },
            None => Task::Wandering,
        }
    } else {
        Task::Wandering
    }
}

/// The ant takes part in the decision stage: it is not the queen and holds
/// nothing.
pub open spec fn decides(a: Ant) -> bool {
    a.caste != Caste::Queen && a.carrying == Carrying::Nothing
}

/// The ant after the decision stage: an idle ant takes up a task as
/// `idle_choice` says; a wanderer steps as `wander_pos` says and turns idle
/// when `rest` came up; a digger steps as `dig_step` says. The queen, ants
/// that hold something and ants on other tasks stay as they are.
pub open spec fn behave(
    g: WorldGrid,
    ph: PheromoneGrids,
    trees: Seq<Plant>,
    leaves: u32,
    nest: NestLocation,
    a: Ant,
    d: TickDraws,
) -> Ant {
    if !decides(a) {
        a
    } else {
        match a.task {
            Task::Idle => Ant { task: idle_choice(g, ph, trees, leaves, nest, a, d), ..a },
            Task::Wandering => Ant {
                pos: wander_pos(g, ph, a.pos, d.roll as int),
                task: if d.rest {
                    Task::Idle
                } else {
                    Task::Wandering
                },
                ..a
            },
            Task::Digging { target_x, target_y, target_z } => Ant {
                pos: dig_step(g, a.pos, target_x as int, target_y as int, target_z as int),
                ..a
            },
            _ => a,
        }
    }
}

/// The ant wanders this tick.
pub open spec fn wanders(a: Ant) -> bool {
    decides(a) && a.task == Task::Wandering
}

/// The decision stage for one ant, with the draws of this tick; `roll` must
/// lie below the total weight when a wanderer has somewhere to go. Only a
/// wanderer changes the scent fields, and only as `trail_laid` says.
pub fn ant_behavior(
    ant: &mut Ant,
    grid: &WorldGrid,
    ph: &mut PheromoneGrids,
    trees: &Vec<Plant>,
    leaves: u32,
    nest: NestLocation,
    draws: TickDraws,
)
    requires
        grid.wf(),
        old(ph).wf(),
        ant_wf(*old(ant)),
        trees_wf(trees@),
        nest_wf(nest),
        wanders(*old(ant)) && total_weight(*grid, *old(ph), old(ant).pos) > 0 ==> draws.roll
            < total_weight(*grid, *old(ph), old(ant).pos),
    ensures
        final(ph).wf(),
        ant_wf(*final(ant)),
        *final(ant) == behave(*grid, *old(ph), trees@, leaves, nest, *old(ant), draws),
        wanders(*old(ant)) ==> trail_laid(*old(ph), *final(ph), old(ant).pos, final(ant).pos),
        !wanders(*old(ant)) ==> *final(ph) == *old(ph),
{
    if ant.caste == Caste::Queen {
        return;
    }
    match ant.carrying {
        Carrying::Nothing => {},
        _ => {
            return;
        },
    }
    match ant.task {
        Task::Idle => {
            let t = choose_idle_task(ant, grid, ph, trees, leaves, nest, draws);
            ant.task = t;
        },
        Task::Wandering => {
            let mut p = ant.pos;
            try_pheromone_biased_move(&mut p, grid, ph, draws.roll);
            ant.pos = p;
            if draws.rest {
                ant.task = Task::Idle;
            }
        },
        Task::Digging { target_x, target_y, target_z } => {
            ant.pos = move_toward_dig(grid, ant.pos, target_x, target_y, target_z);
        },
        _ => {},
    }
}

/// The tiles after the digging stage for ant `a`: a digger next to its
/// target digs it out (dirt becomes tunnel); nothing else changes.
pub open spec fn dig_tiles(tiles: Seq<TileKind>, a: Ant) -> Seq<TileKind> {
    match a.task {
        Task::Digging { target_x, target_y, target_z } => {
            let i = cell_index(target_x as int, target_y as int, target_z as int);
            if adjacent(a.pos, target_x as int, target_y as int, target_z as int) && tiles[i]
                == TileKind::Dirt {
                tiles.update(i, TileKind::Tunnel)
            } else {
                tiles
            }
        },
        _ => tiles,
    }
}

/// The ant after the digging stage: a digger next to its target turns idle,
/// whether or not there was dirt left to dig.
pub open spec fn dig_ant(a: Ant) -> Ant {
    match a.task {
        Task::Digging { target_x, target_y, target_z } => if adjacent(
            a.pos,
            target_x as int,
            target_y as int,
            target_z as int,
        ) {
            Ant { task: Task::Idle, ..a }
        } else {
            a
        },
        _ => a,
    }
}

/// The digging stage for one ant.
pub fn ant_digging(ant: &mut Ant, grid: &mut WorldGrid)
    requires
        old(grid).wf(),
        ant_wf(*old(ant)),
    ensures
        final(grid).wf(),
        ant_wf(*final(ant)),
        final(grid).tiles@ == dig_tiles(old(grid).tiles@, *old(ant)),
        *final(ant) == dig_ant(*old(ant)),
{
    if let Task::Digging { target_x, target_y, target_z } = ant.task {
        if is_adjacent(ant.pos, target_x, target_y, target_z) {
            grid.dig(target_x, target_y, target_z);
            ant.task = Task::Idle;
        }
    }
}

/// Forage scent laid where a leaf is cut.
pub const HARVEST_SCENT: u32 = 3000;

/// Home scent laid at each step of a leaf carried home.
pub const HOME_SCENT: u32 = 500;

/// A forager at `p` can cut leaves from `t`: it stands on the surface level
/// next to the tree.
pub open spec fn can_harvest(p: GridPosition, t: Plant) -> bool {
    let dx = abs(t.tree.x - p.x);
    let dy = abs(t.tree.y - p.y);
    dx <= 1 && dy <= 1 && dx + dy > 0 && p.z == SURFACE_LEVEL
}

/// The forager's target tree exists and has leaves.
pub open spec fn target_live(trees: Seq<Plant>, i: usize) -> bool {
    i < trees.len() && trees[i as int].source.leaves_remaining > 0
}

/// The ant after the foraging stage: a forager whose tree is gone or bare
/// turns idle; one that can cut a leaf takes it and heads for the nest;
/// otherwise it steps toward the tree as `forage_step` says.
pub open spec fn forage_ant(g: WorldGrid, trees: Seq<Plant>, nest: NestLocation, a: Ant) -> Ant {
    match a.task {
        Task::Foraging { target_tree } => if !target_live(trees, target_tree) {
            Ant { task: Task::Idle, ..a }
        } else if can_harvest(a.pos, trees[target_tree as int]) {
            Ant { carrying: Carrying::Leaf, task: go_home(nest), ..a }
        } else {
            let t = trees[target_tree as int].tree;
            Ant { pos: forage_step(g, a.pos, t.x as int, t.y as int), ..a }
        },
        _ => a,
    }
}

/// The forager cuts a leaf this stage.
pub open spec fn harvests(trees: Seq<Plant>, a: Ant) -> bool {
    match a.task {
        Task::Foraging { target_tree } => target_live(trees, target_tree) && can_harvest(
            a.pos,
            trees[target_tree as int],
        ),
        _ => false,
    }
}

/// The trees after the foraging stage: a cut takes one leaf from the target.
pub open spec fn forage_trees(trees: Seq<Plant>, a: Ant) -> Seq<Plant> {
    match a.task {
        Task::Foraging { target_tree } => if harvests(trees, a) {
            let t = trees[target_tree as int];
            trees.update(
                target_tree as int,
                Plant {
                    source: LeafSource {
                        leaves_remaining: (t.source.leaves_remaining - 1) as u32,
                        ..t.source
                    },
                    ..t
                },
            )
        } else {
            trees
        },
        _ => trees,
    }
}

/// Field `k` after `amount` of it was added at `p`.
pub open spec fn scented(ph: PheromoneGrids, k: PheromoneType, p: GridPosition, amount: int) -> Seq<u32> {
    ph.field(k).update(
        cell_index(p.x as int, p.y as int, p.z as int),
        clamp_scent(ph.level(k, p.x as int, p.y as int, p.z as int) + amount),
    )
}

/// `new` is `old` with `amount` of scent `k` added at `p` when `laid`, and
/// equal to `old` otherwise.
pub open spec fn scent_laid(
    old: PheromoneGrids,
    new: PheromoneGrids,
    laid: bool,
    k: PheromoneType,
    p: GridPosition,
    amount: int,
) -> bool {
    if laid {
        &&& new.field(k) == scented(old, k, p, amount)
        &&& forall|j: PheromoneType| j != k ==> #[trigger] new.field(j) == old.field(j)
    } else {
        new == old
    }
}

/// The foraging stage for one ant: a cut lays forage scent where the
/// forager stands.
pub fn ant_foraging(
    ant: &mut Ant,
    trees: &mut Vec<Plant>,
    grid: &WorldGrid,
    nest: NestLocation,
    ph: &mut PheromoneGrids,
)
    requires
        grid.wf(),
        old(ph).wf(),
        ant_wf(*old(ant)),
        trees_wf(old(trees)@),
        nest_wf(nest),
    ensures
        final(ph).wf(),
        ant_wf(*final(ant)),
        trees_wf(final(trees)@),
        *final(ant) == forage_ant(*grid, old(trees)@, nest, *old(ant)),
        final(trees)@ == forage_trees(old(trees)@, *old(ant)),
        scent_laid(
            *old(ph),
            *final(ph),
            harvests(old(trees)@, *old(ant)),
            PheromoneType::Forage,
            old(ant).pos,
            HARVEST_SCENT as int,
        ),
{
    if let Task::Foraging { target_tree } = ant.task {
        if target_tree >= trees.len() {
            ant.task = Task::Idle;
            return;
        }
        let mut t = trees[target_tree];
        if t.source.leaves_remaining == 0 {
            ant.task = Task::Idle;
            return;
        }
        let p = ant.pos;
        let dx = if t.tree.x >= p.x { t.tree.x - p.x } else { p.x - t.tree.x };
        let dy = if t.tree.y >= p.y { t.tree.y - p.y } else { p.y - t.tree.y };
        if dx <= 1 && dy <= 1 && dx + dy > 0 && p.z == SURFACE_LEVEL {
            t.source.leaves_remaining = t.source.leaves_remaining - 1;
            trees.set(target_tree, t);
            ant.carrying = Carrying::Leaf;
            ph.add(PheromoneType::Forage, p.x, p.y, p.z, HARVEST_SCENT as i32);
            ant.task = Task::CarryingHome { home_x: nest.x, home_y: nest.y, home_z: nest.z };
        } else {
            ant.pos = move_toward_tree(grid, p, t.tree.x, t.tree.y);
        }
    }
}

/// The ant after the carrying stage: one that reached its destination
/// drops what it holds and turns idle; otherwise it steps toward the
/// destination as `home_step` says.
pub open spec fn carry_ant(g: WorldGrid, a: Ant) -> Ant {
    match a.task {
        Task::CarryingHome { home_x, home_y, home_z } => if a.pos == (GridPosition {
            x: home_x,
            y: home_y,
            z: home_z,
        }) {
            Ant { carrying: Carrying::Nothing, task: Task::Idle, ..a }
        } else {
            Ant { pos: home_step(g, a.pos, home_x as int, home_y as int, home_z as int), ..a }
        },
        _ => a,
    }
}

/// The ant hands a leaf to the garden this stage.
pub open spec fn delivers(a: Ant) -> bool {
    match a.task {
        Task::CarryingHome { home_x, home_y, home_z } => a.pos == (GridPosition {
            x: home_x,
            y: home_y,
            z: home_z,
        }) && a.carrying == Carrying::Leaf,
        _ => false,
    }
}

/// The ant lays home scent this stage: it carries a leaf and is not there yet.
pub open spec fn marks_home(a: Ant) -> bool {
    match a.task {
        Task::CarryingHome { home_x, home_y, home_z } => a.pos != (GridPosition {
            x: home_x,
            y: home_y,
            z: home_z,
        }) && a.carrying == Carrying::Leaf,
        _ => false,
    }
}

/// The garden after the carrying stage.
pub open spec fn carry_garden(garden: FungusGarden, a: Ant) -> FungusGarden {
    if delivers(a) {
        FungusGarden { leaves: sat_inc(garden.leaves), ..garden }
    } else {
        garden
    }
}

/// The carrying stage for one ant.
pub fn ant_carrying(
    ant: &mut Ant,
    grid: &WorldGrid,
    garden: &mut FungusGarden,
    ph: &mut PheromoneGrids,
)
    requires
        grid.wf(),
        old(ph).wf(),
        ant_wf(*old(ant)),
    ensures
        final(ph).wf(),
        ant_wf(*final(ant)),
        *final(ant) == carry_ant(*grid, *old(ant)),
        *final(garden) == carry_garden(*old(garden), *old(ant)),
        delivers(*old(ant)) && old(garden).leaves < u32::MAX ==> final(garden).leaves == old(
            garden,
        ).leaves + 1,
        final(garden).mulch == old(garden).mulch,
        final(garden).food == old(garden).food,
        final(garden).growth_progress == old(garden).growth_progress,
        scent_laid(
            *old(ph),
            *final(ph),
            marks_home(*old(ant)),
            PheromoneType::Home,
            old(ant).pos,
            HOME_SCENT as int,
        ),
{
    if let Task::CarryingHome { home_x, home_y, home_z } = ant.task {
        let p = ant.pos;
        if p.x == home_x && p.y == home_y && p.z == home_z {
            if ant.carrying == Carrying::Leaf {
                garden.add_leaf();
            }
            ant.carrying = Carrying::Nothing;
            ant.task = Task::Idle;
        } else {
            if ant.carrying == Carrying::Leaf {
                ph.add(PheromoneType::Home, p.x, p.y, p.z, HOME_SCENT as i32);
            }
            ant.pos = move_toward_home(grid, p, home_x, home_y, home_z);
        }
    }
}

/// The gardener processes a leaf this stage.
pub open spec fn tends(a: Ant, nest: NestLocation) -> bool {
    a.task == Task::Gardening && at_nest(a.pos, nest)
}

/// The garden after the gardening stage.
pub open spec fn garden_after(garden: FungusGarden, nest: NestLocation, a: Ant) -> FungusGarden {
    if tends(a, nest) {
        processed(garden)
    } else {
        garden
    }
}

/// The ant after the gardening stage: a gardener at the nest keeps at it
/// until no leaves are left; one elsewhere turns idle.
pub open spec fn garden_ant(garden: FungusGarden, nest: NestLocation, a: Ant) -> Ant {
    if a.task != Task::Gardening {
        a
    } else if at_nest(a.pos, nest) && processed(garden).leaves > 0 {
        a
    } else {
        Ant { task: Task::Idle, ..a }
    }
}

/// The gardening stage for one ant.
pub fn ant_gardening(ant: &mut Ant, garden: &mut FungusGarden, nest: NestLocation)
    requires
        ant_wf(*old(ant)),
    ensures
        ant_wf(*final(ant)),
        *final(ant) == garden_ant(*old(garden), nest, *old(ant)),
        *final(garden) == garden_after(*old(garden), nest, *old(ant)),
{
    if ant.task == Task::Gardening {
        let p = ant.pos;
        if p.x == nest.x && p.y == nest.y && p.z == nest.z {
            garden.process_leaf();
            if garden.leaves == 0 {
                ant.task = Task::Idle;
            }
        } else {
            ant.task = Task::Idle;
        }
    }
}

/// Hunger an ant of caste `c` gains per tick.
pub open spec fn hunger_rate(c: Caste) -> u32 {
    if c == Caste::Queen {
        (HUNGER_RATE / 2) as u32
    } else {
        HUNGER_RATE
    }
}

/// The ant after the hunger stage: its hunger grows by its rate (held at
/// `u32::MAX`), and from the threshold on it drops its task to go and eat,
/// unless it is already doing so or carrying something home.
pub open spec fn hunger_ant(a: Ant) -> Ant {
    let sum = a.hunger.current + hunger_rate(a.caste);
    let current = if sum <= u32::MAX { sum as u32 } else { u32::MAX };
    Ant {
        hunger: Hunger { current, ..a.hunger },
        task: if current >= HUNGER_THRESHOLD && a.task != Task::SeekingFood && !(a.task is CarryingHome) {
            Task::SeekingFood
        } else {
            a.task
        },
        ..a
    }
}

/// The hunger stage for one ant.
pub fn ant_hunger(ant: &mut Ant)
    requires
        ant_wf(*old(ant)),
    ensures
        ant_wf(*final(ant)),
        *final(ant) == hunger_ant(*old(ant)),
{
    let rate = if ant.caste == Caste::Queen { HUNGER_RATE / 2 } else { HUNGER_RATE };
    ant.hunger.current = ant.hunger.current.saturating_add(rate);
    if ant.hunger.current >= HUNGER_THRESHOLD {
        match ant.task {
            Task::SeekingFood | Task::CarryingHome { .. } => {},
            _ => {
                ant.task = Task::SeekingFood;
            },
        }
    }
}

/// The ant eats this stage: it seeks food at the nest and food is there.
pub open spec fn eats(garden: FungusGarden, nest: NestLocation, a: Ant) -> bool {
    a.task == Task::SeekingFood && at_nest(a.pos, nest) && garden.food > 0
}

/// The ant after the feeding stage: one that eats is no longer hungry and
/// turns idle; one at the nest without food waits; one elsewhere steps
/// toward the nest as `home_step` says.
pub open spec fn feed_ant(g: WorldGrid, garden: FungusGarden, nest: NestLocation, a: Ant) -> Ant {
    if a.task != Task::SeekingFood {
        a
    } else if at_nest(a.pos, nest) {
        if garden.food > 0 {
            Ant { hunger: Hunger { current: 0, ..a.hunger }, task: Task::Idle, ..a }
        } else {
            a
        }
    } else {
        Ant { pos: home_step(g, a.pos, nest.x as int, nest.y as int, nest.z as int), ..a }
    }
}

/// The garden after the feeding stage.
pub open spec fn feed_garden(garden: FungusGarden, nest: NestLocation, a: Ant) -> FungusGarden {
    if eats(garden, nest, a) {
        FungusGarden { food: (garden.food - 1) as u32, ..garden }
    } else {
        garden
    }
}

/// The feeding stage for one ant.
pub fn ant_feeding(ant: &mut Ant, garden: &mut FungusGarden, nest: NestLocation, grid: &WorldGrid)
    requires
        grid.wf(),
        nest_wf(nest),
        ant_wf(*old(ant)),
    ensures
        ant_wf(*final(ant)),
        *final(ant) == feed_ant(*grid, *old(garden), nest, *old(ant)),
        *final(garden) == feed_garden(*old(garden), nest, *old(ant)),
{
    if ant.task == Task::SeekingFood {
        let p = ant.pos;
        if p.x == nest.x && p.y == nest.y && p.z == nest.z {
            if garden.consume_food() {
                ant.hunger.current = 0;
                ant.task = Task::Idle;
            }
        } else {
            ant.pos = move_toward_home(grid, p, nest.x, nest.y, nest.z);
        }
    }
}

/// The ant has not starved.
pub open spec fn alive(a: Ant) -> bool {
    a.hunger.current < a.hunger.max
}

/// The ants of `ants` that have not starved, in their order.
pub open spec fn survivors(ants: Seq<Ant>) -> Seq<Ant>
    decreases ants.len(),
{
    if ants.len() == 0 {
        ants
    } else {
        let rest = survivors(ants.drop_last());
        if alive(ants.last()) {
            rest.push(ants.last())
        } else {
            rest
        }
    }
}

/// No survivor has starved: an ant whose hunger reached its maximum is
/// gone whatever its task. Every ant that has not starved survives, and
/// there are no more survivors than ants.
pub proof fn lemma_survivors(ants: Seq<Ant>)
    ensures
        forall|i: int|
            0 <= i < survivors(ants).len() ==> #[trigger] alive(survivors(ants)[i]),
        forall|i: int|
            0 <= i < ants.len() && #[trigger] alive(ants[i]) ==> survivors(ants).contains(ants[i]),
        forall|a: Ant| survivors(ants).contains(a) ==> ants.contains(a),
        forall|a: Ant| !alive(a) ==> !#[trigger] survivors(ants).contains(a),
        survivors(ants).len() <= ants.len(),
    decreases ants.len(),
{
    if ants.len() > 0 {
        let init = ants.drop_last();
        lemma_survivors(init);
        let rest = survivors(init);
        assert forall|i: int|
            0 <= i < ants.len() && #[trigger] alive(ants[i]) implies survivors(ants).contains(
            ants[i],
        ) by {
            if i < ants.len() - 1 {
                assert(init[i] == ants[i]);
                assert(alive(init[i]));
                let k = choose|k: int| 0 <= k < rest.len() && rest[k] == init[i];
                if alive(ants.last()) {
                    assert(rest.push(ants.last())[k] == ants[i]);
                }
            } else {
                assert(rest.push(ants.last())[rest.len() as int] == ants[i]);
            }
        }
        assert forall|a: Ant| survivors(ants).contains(a) implies ants.contains(a) by {
            let k = choose|k: int| 0 <= k < survivors(ants).len() && survivors(ants)[k] == a;
            if k < rest.len() {
                if alive(ants.last()) {
                    assert(rest.push(ants.last())[k] == rest[k]);
                }
                assert(rest[k] == a);
                assert(rest.contains(a));
                assert(init.contains(a));
                let j = choose|j: int| 0 <= j < init.len() && init[j] == a;
                assert(ants[j] == init[j]);
            } else {
                assert(rest.push(ants.last())[k] == ants.last());
                assert(ants[ants.len() - 1] == a);
            }
        }
    }
}

/// The starvation stage: every ant whose hunger reached its maximum is
/// removed, whatever it was doing; the others stay in their order.
pub fn ant_starvation(ants: &mut Vec<Ant>)
    ensures
        final(ants)@ == survivors(old(ants)@),
{
    let mut kept: Vec<Ant> = Vec::new();
    let mut i: usize = 0;
    while i < ants.len()
        invariant
            i <= ants@.len(),
            kept@ == survivors(ants@.take(i as int)),
        decreases ants@.len() - i,
    {
        let a = ants[i];
        assert(ants@.take(i + 1).drop_last() == ants@.take(i as int));
        if a.hunger.current < a.hunger.max {
            kept.push(a);
        }
        i = i + 1;
    }
    assert(ants@.take(ants@.len() as int) == ants@);
    *ants = kept;
}

/// An ant whose hunger lies within one tick's rate below the threshold
/// sets out to eat after one hunger tick, unless it is already doing so or
/// carrying something home.
pub proof fn lemma_hunger_reaches_threshold(a: Ant, short: u32)
    requires
        0 < short <= hunger_rate(a.caste),
        a.hunger.current + short == HUNGER_THRESHOLD,
    ensures
        hunger_ant(a).task == if a.task == Task::SeekingFood || a.task is CarryingHome {
            a.task
        } else {
            Task::SeekingFood
        },
{
}

/// Cutting the last leaf of a tree from next to it on the surface leaves the
/// tree bare, puts the leaf in the forager's hold, sends it home and lays
/// forage scent of `HARVEST_SCENT` where it stands.
pub proof fn lemma_harvest_last_leaf(
    g: WorldGrid,
    trees: Seq<Plant>,
    nest: NestLocation,
    a: Ant,
    ph: PheromoneGrids,
)
    requires
        ph.wf(),
        pos_wf(a.pos),
        a.task matches Task::Foraging { target_tree } && target_tree < trees.len()
            && trees[target_tree as int].source.leaves_remaining == 1 && can_harvest(
            a.pos,
            trees[target_tree as int],
        ),
    ensures
        a.task matches Task::Foraging { target_tree } && forage_trees(
            trees,
            a,
        )[target_tree as int].source.leaves_remaining == 0,
        forage_ant(g, trees, nest, a).carrying == Carrying::Leaf,
        forage_ant(g, trees, nest, a).task == go_home(nest),
        harvests(trees, a),
        scented(ph, PheromoneType::Forage, a.pos, HARVEST_SCENT as int)[cell_index(
            a.pos.x as int,
            a.pos.y as int,
            a.pos.z as int,
        )] == clamp_scent(
            ph.level(PheromoneType::Forage, a.pos.x as int, a.pos.y as int, a.pos.z as int)
                + HARVEST_SCENT,
        ),
{
    crate::lemma_cell_index(a.pos.x as int, a.pos.y as int, a.pos.z as int);
}

/// Delivering a leaf at the nest adds exactly one leaf to the garden,
/// empties the carrier's hold and makes it idle.
pub proof fn lemma_deliver_leaf(g: WorldGrid, garden: FungusGarden, nest: NestLocation, a: Ant)
    requires
        a.task == go_home(nest),
        at_nest(a.pos, nest),
        a.carrying == Carrying::Leaf,
        garden.leaves < u32::MAX,
    ensures
        carry_garden(garden, a) == (FungusGarden { leaves: (garden.leaves + 1) as u32, ..garden }),
        carry_ant(g, a).carrying == Carrying::Nothing,
        carry_ant(g, a).task == Task::Idle,
{
}

/// A digger not next to its target leaves the tiles alone and keeps its
/// task; one next to dirt turns exactly that cell into tunnel and turns
/// idle; one next to a cell already dug changes nothing and turns idle.
pub proof fn lemma_dig_outcomes(tiles: Seq<TileKind>, a: Ant, x: usize, y: usize, z: usize)
    requires
        a.task == (Task::Digging { target_x: x, target_y: y, target_z: z }),
    ensures
        !adjacent(a.pos, x as int, y as int, z as int) ==> dig_tiles(tiles, a) == tiles
            && dig_ant(a) == a,
        adjacent(a.pos, x as int, y as int, z as int) && tiles[cell_index(x as int, y as int, z as int)]
            == TileKind::Dirt ==> dig_tiles(tiles, a) == tiles.update(
            cell_index(x as int, y as int, z as int),
            TileKind::Tunnel,
        ) && dig_ant(a).task == Task::Idle,
        adjacent(a.pos, x as int, y as int, z as int) && tiles[cell_index(x as int, y as int, z as int)]
            == TileKind::Tunnel ==> dig_tiles(tiles, a) == tiles && dig_ant(a).task == Task::Idle,
{
}

} // verus!
