//! What an idle ant looks for: dirt next to it, the nearest tree with
//! leaves, forage scent around it and dig scent over dirt.
use vstd::prelude::*;

use crate::ants::{abs, pos_wf, trees_wf, GridPosition};
use crate::pheromones::{PheromoneGrids, PheromoneType};
use crate::world::{Plant, TileKind, WorldGrid};
use crate::arith::{integer_sqrt, isqrt};
use crate::{cell_index, in_bounds, lemma_cell_index, WORLD_SIZE};

verus! {

/// (x, y, z) lies in the world and holds dirt.
pub open spec fn dirt_at(g: WorldGrid, x: int, y: int, z: int) -> bool {
    in_bounds(x, y, z) && g.tile(x, y, z) == TileKind::Dirt
}

/// The first dirt cell among the neighbours of `p` below, east, west,
/// north and south, in that order.
pub open spec fn diggable_near(g: WorldGrid, p: GridPosition) -> Option<(usize, usize, usize)> {
    let (x, y, z) = (p.x as int, p.y as int, p.z as int);
    if dirt_at(g, x, y, z - 1) {
        Some((p.x, p.y, (z - 1) as usize))
    } else if dirt_at(g, x + 1, y, z) {
        Some(((x + 1) as usize, p.y, p.z))
    } else if dirt_at(g, x - 1, y, z) {
        Some(((x - 1) as usize, p.y, p.z))
    } else if dirt_at(g, x, y + 1, z) {
        Some((p.x, (y + 1) as usize, p.z))
    } else if dirt_at(g, x, y - 1, z) {
        Some((p.x, (y - 1) as usize, p.z))
    } else {
        None
    }
}

/// Whether (x, y, z), given as signed coordinates, holds dirt.
fn is_dirt(grid: &WorldGrid, x: i64, y: i64, z: i64) -> (r: bool)
    requires
        grid.wf(),
    ensures
        r == dirt_at(*grid, x as int, y as int, z as int),
{
    if 0 <= x && x < 64 && 0 <= y && y < 64 && 0 <= z && z < 64 {
        grid.get(x as usize, y as usize, z as usize) == TileKind::Dirt
    } else {
        false
    }
}

/// The dirt cell next to `pos` that an ant digs when it picks one by
/// itself, as `diggable_near` says.
pub fn find_diggable_tile(pos: GridPosition, grid: &WorldGrid) -> (r: Option<(usize, usize, usize)>)
    requires
        grid.wf(),
        in_bounds(pos.x as int, pos.y as int, pos.z as int),
    ensures
        r == diggable_near(*grid, pos),
{
    let x = pos.x as i64;
    let y = pos.y as i64;
    let z = pos.z as i64;
    if is_dirt(grid, x, y, z - 1) {
        Some((pos.x, pos.y, pos.z - 1))
    } else if is_dirt(grid, x + 1, y, z) {
        Some((pos.x + 1, pos.y, pos.z))
    } else if is_dirt(grid, x - 1, y, z) {
        Some((pos.x - 1, pos.y, pos.z))
    } else if is_dirt(grid, x, y + 1, z) {
        Some((pos.x, pos.y + 1, pos.z))
    } else if is_dirt(grid, x, y - 1, z) {
        Some((pos.x, pos.y - 1, pos.z))
    } else {
        None
    }
}

/// The tree still has leaves.
pub open spec fn live(p: Plant) -> bool {
    p.source.leaves_remaining > 0
}

/// Grid distance, along the axes, from (x, y) to a tree.
pub open spec fn tree_distance(p: Plant, x: int, y: int) -> int {
    abs(p.tree.x - x) + abs(p.tree.y - y)
}

/// Tree `i` has leaves and is the first of the nearest such trees.
pub open spec fn is_nearest(trees: Seq<Plant>, x: int, y: int, i: int) -> bool {
    &&& 0 <= i < trees.len()
    &&& live(trees[i])
    &&& forall|j: int|
        0 <= j < trees.len() && #[trigger] live(trees[j]) ==> tree_distance(trees[i], x, y)
            <= tree_distance(trees[j], x, y) && (j < i ==> tree_distance(trees[i], x, y)
            < tree_distance(trees[j], x, y))
}

/// The index of the first nearest tree with leaves, if any tree has some.
pub open spec fn nearest_tree(trees: Seq<Plant>, x: int, y: int) -> Option<usize> {
    if exists|i: int| is_nearest(trees, x, y, i) {
        Some((choose|i: int| is_nearest(trees, x, y, i)) as usize)
    } else {
        None
    }
}

/// At most one tree is the first nearest.
pub proof fn lemma_nearest_unique(trees: Seq<Plant>, x: int, y: int, i: int, j: int)
    requires
        is_nearest(trees, x, y, i),
        is_nearest(trees, x, y, j),
    ensures
        i == j,
{
    assert(live(trees[i]) && live(trees[j]));
}

/// Distance along the axes between two coordinates below `WORLD_SIZE`.
fn axis_gap(a: usize, b: usize) -> (r: usize)
    ensures
        r == abs(a - b),
{
    if a >= b {
        a - b
    } else {
        b - a
    }
}

/// The index of the first nearest tree with leaves, as `nearest_tree` says;
/// `None` exactly when no tree has leaves.
pub fn find_nearest_tree(pos: GridPosition, trees: &Vec<Plant>) -> (r: Option<usize>)
    requires
        pos.x < WORLD_SIZE,
        pos.y < WORLD_SIZE,
        trees_wf(trees@),
    ensures
        r == nearest_tree(trees@, pos.x as int, pos.y as int),
        r is None <==> forall|i: int| 0 <= i < trees@.len() ==> !#[trigger] live(trees@[i]),
{
    let ghost x = pos.x as int;
    let ghost y = pos.y as int;
    let mut best: Option<usize> = None;
    let mut best_distance: usize = 0;
    let mut i: usize = 0;
    while i < trees.len()
        invariant
            i <= trees@.len(),
            trees_wf(trees@),
            pos.x < WORLD_SIZE,
            pos.y < WORLD_SIZE,
            x == pos.x,
            y == pos.y,
            best is None ==> forall|j: int| 0 <= j < i ==> !#[trigger] live(trees@[j]),
            best matches Some(b) ==> {
                &&& b < i
                &&& live(trees@[b as int])
                &&& best_distance == tree_distance(trees@[b as int], x, y)
                &&& forall|j: int|
                    0 <= j < i && #[trigger] live(trees@[j]) ==> best_distance <= tree_distance(
                        trees@[j],
                        x,
                        y,
                    ) && (j < b ==> best_distance < tree_distance(trees@[j], x, y))
            },
        decreases trees@.len() - i,
    {
        let t = trees[i];
        assert(t.tree.x < WORLD_SIZE && t.tree.y < WORLD_SIZE);
        if t.source.leaves_remaining > 0 {
            let d = axis_gap(t.tree.x, pos.x) + axis_gap(t.tree.y, pos.y);
            assert(tree_distance(trees@[i as int], x, y) == d);
            let closer = match best {
                None => true,
                Some(_) => d < best_distance,
            };
            if closer {
                best = Some(i);
                best_distance = d;
            }
        }
        i = i + 1;
    }
    proof {
        match best {
            Some(b) => {
                assert(is_nearest(trees@, x, y, b as int));
                let c = choose|i: int| is_nearest(trees@, x, y, i);
                lemma_nearest_unique(trees@, x, y, b as int, c);
            },
            None => {
                assert(!exists|i: int| is_nearest(trees@, x, y, i));
            },
        }
    }
    best
}

/// Scent strength above which an ant takes notice, in ten-thousandths.
pub const NOTICE_LEVEL: u32 = 1000;

/// How far, along each horizontal axis, an idle ant senses scent.
pub const SENSE_RADIUS: usize = 5;

/// Some cell of the ant's level within five cells of (x, y) along each
/// axis holds forage scent above the notice level.
pub open spec fn forage_nearby(ph: PheromoneGrids, x: int, y: int, z: int) -> bool {
    exists|a: int, b: int|
        abs(a - x) <= 5 && abs(b - y) <= 5 && in_bounds(a, b, z) && #[trigger] ph.level(
            PheromoneType::Forage,
            a,
            b,
            z,
        ) > NOTICE_LEVEL
}

/// The lowest coordinate within the sense radius of `c`.
fn reach_low(c: usize) -> (r: usize)
    ensures
        r == if c >= 5 { c - 5 } else { 0 },
{
    if c >= SENSE_RADIUS {
        c - SENSE_RADIUS
    } else {
        0
    }
}

/// The highest coordinate in the world within the sense radius of `c`.
fn reach_high(c: usize) -> (r: usize)
    requires
        c < WORLD_SIZE,
    ensures
        r == if c + 5 <= 63 { c + 5 } else { 63 },
{
    if c + SENSE_RADIUS <= WORLD_SIZE - 1 {
        c + SENSE_RADIUS
    } else {
        WORLD_SIZE - 1
    }
}

/// Whether forage scent above the notice level lies near `pos`, as
/// `forage_nearby` says.
pub fn senses_forage(pos: GridPosition, ph: &PheromoneGrids) -> (r: bool)
    requires
        ph.wf(),
        pos_wf(pos),
    ensures
        r == forage_nearby(*ph, pos.x as int, pos.y as int, pos.z as int),
{
    let xlo = reach_low(pos.x);
    let xhi = reach_high(pos.x);
    let ylo = reach_low(pos.y);
    let yhi = reach_high(pos.y);
    let mut b: usize = ylo;
    while b <= yhi
        invariant
            ph.wf(),
            pos_wf(pos),
            xlo == (if pos.x >= 5 { pos.x - 5 } else { 0 }),
            xhi == (if pos.x + 5 <= 63 { pos.x + 5 } else { 63 }),
            ylo == (if pos.y >= 5 { pos.y - 5 } else { 0 }),
            yhi == (if pos.y + 5 <= 63 { pos.y + 5 } else { 63 }),
            ylo <= b <= yhi + 1,
            forall|a2: int, b2: int|
                xlo <= a2 <= xhi && ylo <= b2 < b ==> #[trigger] ph.level(
                    PheromoneType::Forage,
                    a2,
                    b2,
                    pos.z as int,
                ) <= NOTICE_LEVEL,
        decreases yhi + 1 - b,
    {
        let mut a: usize = xlo;
        while a <= xhi
            invariant
                ph.wf(),
                pos_wf(pos),
                xlo == (if pos.x >= 5 { pos.x - 5 } else { 0 }),
                xhi == (if pos.x + 5 <= 63 { pos.x + 5 } else { 63 }),
                ylo == (if pos.y >= 5 { pos.y - 5 } else { 0 }),
                yhi == (if pos.y + 5 <= 63 { pos.y + 5 } else { 63 }),
                ylo <= b <= yhi,
                xlo <= a <= xhi + 1,
                forall|a2: int, b2: int|
                    xlo <= a2 <= xhi && ylo <= b2 < b ==> #[trigger] ph.level(
                        PheromoneType::Forage,
                        a2,
                        b2,
                        pos.z as int,
                    ) <= NOTICE_LEVEL,
                forall|a2: int|
                    xlo <= a2 < a ==> #[trigger] ph.level(
                        PheromoneType::Forage,
                        a2,
                        b as int,
                        pos.z as int,
                    ) <= NOTICE_LEVEL,
            decreases xhi + 1 - a,
        {
            if ph.get(PheromoneType::Forage, a, b, pos.z) > NOTICE_LEVEL {
                return true;
            }
            a = a + 1;
        }
        b = b + 1;
    }
    proof {
        assert forall|a2: int, b2: int|
            abs(a2 - pos.x) <= 5 && abs(b2 - pos.y) <= 5 && in_bounds(
                a2,
                b2,
                pos.z as int,
            ) implies #[trigger] ph.level(PheromoneType::Forage, a2, b2, pos.z as int)
            <= NOTICE_LEVEL by {
            assert(xlo <= a2 <= xhi && ylo <= b2 < b);
        }
    }
    false
}

/// The tree a forager goes for when it senses forage scent: the nearest
/// tree with leaves, as `nearest_tree` says; `None` without such scent.
pub open spec fn forage_target(ph: PheromoneGrids, trees: Seq<Plant>, p: GridPosition) -> Option<
    usize,
> {
    if forage_nearby(ph, p.x as int, p.y as int, p.z as int) {
        nearest_tree(trees, p.x as int, p.y as int)
    } else {
        None
    }
}

/// The tree a forager at `pos` goes for, as `forage_target` says.
pub fn find_forage_target(pos: GridPosition, ph: &PheromoneGrids, trees: &Vec<Plant>) -> (r: Option<
    usize,
>)
    requires
        ph.wf(),
        pos_wf(pos),
        trees_wf(trees@),
    ensures
        r == forage_target(*ph, trees@, pos),
{
    if !senses_forage(pos, ph) {
        return None;
    }
    find_nearest_tree(pos, trees)
}

/// Score of a dirt cell holding dig scent `s` at squared horizontal
/// distance `q` from the ant: `s / (1 + 0.2 * sqrt(q))`, in fixed point and
/// rounded down.
pub open spec fn dig_score(s: int, q: int) -> int {
    s * 10000 / (10000 + isqrt((4000000 * q) as nat) as int)
}

/// (a, b, c) is a dirt cell within five cells of `p` along each horizontal
/// axis, on the ant's level or the one below.
pub open spec fn dig_candidate(g: WorldGrid, p: GridPosition, a: int, b: int, c: int) -> bool {
    &&& abs(a - p.x) <= 5
    &&& abs(b - p.y) <= 5
    &&& p.z - 1 <= c <= p.z
    &&& dirt_at(g, a, b, c)
}

/// The score of cell (a, b, c) seen from `p`.
pub open spec fn candidate_score(ph: PheromoneGrids, p: GridPosition, a: int, b: int, c: int) -> int {
    dig_score(
        ph.level(PheromoneType::Dig, a, b, c) as int,
        (a - p.x) * (a - p.x) + (b - p.y) * (b - p.y),
    )
}

/// (a, b, c) is the dirt cell that dig scent points to: it scores above the
/// notice level, no candidate scores more, and every candidate before it in
/// storage order scores less.
pub open spec fn is_best_dig(g: WorldGrid, ph: PheromoneGrids, p: GridPosition, a: int, b: int, c: int) -> bool {
    &&& dig_candidate(g, p, a, b, c)
    &&& candidate_score(ph, p, a, b, c) > NOTICE_LEVEL
    &&& forall|a2: int, b2: int, c2: int| #[trigger]
        dig_candidate(g, p, a2, b2, c2) ==> candidate_score(ph, p, a2, b2, c2) <= candidate_score(
            ph,
            p,
            a,
            b,
            c,
        ) && (cell_index(a2, b2, c2) < cell_index(a, b, c) ==> candidate_score(ph, p, a2, b2, c2)
            < candidate_score(ph, p, a, b, c))
}

/// The dirt cell that dig scent around `p` points to, if any.
pub open spec fn dig_target(g: WorldGrid, ph: PheromoneGrids, p: GridPosition) -> Option<
    (usize, usize, usize),
> {
    if exists|t: (int, int, int)| is_best_dig(g, ph, p, t.0, t.1, t.2) {
        let t = choose|t: (int, int, int)| is_best_dig(g, ph, p, t.0, t.1, t.2);
        Some((t.0 as usize, t.1 as usize, t.2 as usize))
    } else {
        None
    }
}

/// At most one cell is the one dig scent points to.
pub proof fn lemma_best_dig_unique(
    g: WorldGrid,
    ph: PheromoneGrids,
    p: GridPosition,
    s: (int, int, int),
    t: (int, int, int),
)
    requires
        is_best_dig(g, ph, p, s.0, s.1, s.2),
        is_best_dig(g, ph, p, t.0, t.1, t.2),
    ensures
        s == t,
{
    assert(dig_candidate(g, p, s.0, s.1, s.2));
    assert(dig_candidate(g, p, t.0, t.1, t.2));
    lemma_cell_index(s.0, s.1, s.2);
    lemma_cell_index(t.0, t.1, t.2);
}

/// The scan of dig candidates has covered every cell stored before `bound`:
/// `best` is the first best among them if it beats the notice level, and
/// `best_score` is its score or the notice level.
pub open spec fn scan_ok(
    g: WorldGrid,
    ph: PheromoneGrids,
    p: GridPosition,
    bound: int,
    best: Option<(usize, usize, usize)>,
    best_score: int,
) -> bool {
    &&& best is None ==> best_score == NOTICE_LEVEL
    &&& best matches Some(t) ==> {
        &&& dig_candidate(g, p, t.0 as int, t.1 as int, t.2 as int)
        &&& cell_index(t.0 as int, t.1 as int, t.2 as int) < bound
        &&& candidate_score(ph, p, t.0 as int, t.1 as int, t.2 as int) == best_score
        &&& best_score > NOTICE_LEVEL
    }
    &&& forall|a2: int, b2: int, c2: int| #[trigger]
        dig_candidate(g, p, a2, b2, c2) && cell_index(a2, b2, c2) < bound ==> candidate_score(
            ph,
            p,
            a2,
            b2,
            c2,
        ) <= best_score && (best matches Some(t) && cell_index(a2, b2, c2) < cell_index(
            t.0 as int,
            t.1 as int,
            t.2 as int,
        ) ==> candidate_score(ph, p, a2, b2, c2) < best_score)
}

/// The scan may pass over stored positions that hold no candidate.
proof fn lemma_scan_skip(
    g: WorldGrid,
    ph: PheromoneGrids,
    p: GridPosition,
    lo: int,
    hi: int,
    best: Option<(usize, usize, usize)>,
    best_score: int,
)
    requires
        scan_ok(g, ph, p, lo, best, best_score),
        lo <= hi,
        forall|a2: int, b2: int, c2: int|
            #![trigger dig_candidate(g, p, a2, b2, c2)]
            dig_candidate(g, p, a2, b2, c2) ==> cell_index(a2, b2, c2) < lo || cell_index(a2, b2, c2)
                >= hi,
    ensures
        scan_ok(g, ph, p, hi, best, best_score),
{
}

/// No in-bounds cell whose x lies in `[xlo, xhi]` is stored between the end
/// of that span on row `b` and its start on row `b + 1`.
proof fn lemma_row_gap(xlo: int, xhi: int, b: int, c: int)
    requires
        0 <= xlo <= xhi < 64,
    ensures
        forall|a2: int, b2: int, c2: int|
            #![trigger cell_index(a2, b2, c2)]
            in_bounds(a2, b2, c2) && xlo <= a2 <= xhi ==> cell_index(a2, b2, c2) < cell_index(
                xhi + 1,
                b,
                c,
            ) || cell_index(a2, b2, c2) >= cell_index(xlo, b + 1, c),
{
}

/// No in-bounds cell whose x lies in `[xlo, xhi]` and y in `[ylo, yhi]` is stored between the end
/// of that block on level `c` and its start on level `c + 1`.
proof fn lemma_level_gap(xlo: int, xhi: int, ylo: int, yhi: int, c: int)
    requires
        0 <= xlo <= xhi < 64,
        0 <= ylo <= yhi < 64,
    ensures
        forall|a2: int, b2: int, c2: int|
            #![trigger cell_index(a2, b2, c2)]
            in_bounds(a2, b2, c2) && xlo <= a2 <= xhi && ylo <= b2 <= yhi ==> cell_index(a2, b2, c2)
                < cell_index(
                xlo,
                yhi + 1,
                c,
            ) || cell_index(a2, b2, c2) >= cell_index(xlo, ylo, c + 1),
{
}

/// The score of cell (a, b, c) seen from `pos`, as `candidate_score` says.
fn score_of(ph: &PheromoneGrids, pos: GridPosition, a: usize, b: usize, c: usize) -> (r: u64)
    requires
        ph.wf(),
        pos_wf(pos),
        in_bounds(a as int, b as int, c as int),
        abs(a - pos.x) <= 5,
        abs(b - pos.y) <= 5,
    ensures
        r == candidate_score(*ph, pos, a as int, b as int, c as int),
{
    let s = ph.get(PheromoneType::Dig, a, b, c) as u64;
    let dx: u64 = if a >= pos.x { (a - pos.x) as u64 } else { (pos.x - a) as u64 };
    let dy: u64 = if b >= pos.y { (b - pos.y) as u64 } else { (pos.y - b) as u64 };
    assert(dx * dx <= 25 && dy * dy <= 25) by (nonlinear_arith)
        requires
            dx <= 5,
            dy <= 5,
    ;
    let q: u64 = dx * dx + dy * dy;
    assert(q == (a - pos.x) * (a - pos.x) + (b - pos.y) * (b - pos.y)) by (nonlinear_arith)
        requires
            dx == abs(a - pos.x),
            dy == abs(b - pos.y),
            q == dx * dx + dy * dy,
    ;
    let root = integer_sqrt(4000000 * q);
    assert(root <= 4000000 * q) by (nonlinear_arith)
        requires
            root * root <= 4000000 * q,
    ;
    (s * 10000) / (10000 + root)
}

/// The dirt cell that dig scent around `pos` points to, as `dig_target`
/// says.
pub fn find_pheromone_dig_target(pos: GridPosition, grid: &WorldGrid, ph: &PheromoneGrids) -> (r:
    Option<(usize, usize, usize)>)
    requires
        grid.wf(),
        ph.wf(),
        pos_wf(pos),
    ensures
        r == dig_target(*grid, *ph, pos),
        r matches Some(t) ==> is_best_dig(*grid, *ph, pos, t.0 as int, t.1 as int, t.2 as int),
        r is None ==> forall|a: int, b: int, c: int|
            #[trigger] dig_candidate(*grid, pos, a, b, c) ==> candidate_score(*ph, pos, a, b, c)
                <= NOTICE_LEVEL,
{
    let ghost g = *grid;
    let ghost h = *ph;
    let xlo = reach_low(pos.x);
    let xhi = reach_high(pos.x);
    let ylo = reach_low(pos.y);
    let yhi = reach_high(pos.y);
    let zlo: usize = if pos.z > 0 { pos.z - 1 } else { 0 };
    let mut best: Option<(usize, usize, usize)> = None;
    let mut best_score: u64 = NOTICE_LEVEL as u64;
    proof {
        lemma_scan_skip(g, h, pos, 0, cell_index(xlo as int, ylo as int, zlo as int), best, best_score as int);
    }
    let mut c: usize = zlo;
    while c <= pos.z
        invariant
            grid.wf(),
            ph.wf(),
            pos_wf(pos),
            g == *grid,
            h == *ph,
            xlo == (if pos.x >= 5 { pos.x - 5 } else { 0 }),
            xhi == (if pos.x + 5 <= 63 { pos.x + 5 } else { 63 }),
            ylo == (if pos.y >= 5 { pos.y - 5 } else { 0 }),
            yhi == (if pos.y + 5 <= 63 { pos.y + 5 } else { 63 }),
            zlo == (if pos.z > 0 { pos.z - 1 } else { 0 }),
            zlo <= c <= pos.z + 1,
            scan_ok(g, h, pos, cell_index(xlo as int, ylo as int, c as int), best, best_score as int),
        decreases pos.z + 1 - c,
    {
        let mut b: usize = ylo;
        while b <= yhi
            invariant
                grid.wf(),
                ph.wf(),
                pos_wf(pos),
                g == *grid,
                h == *ph,
                xlo == (if pos.x >= 5 { pos.x - 5 } else { 0 }),
                xhi == (if pos.x + 5 <= 63 { pos.x + 5 } else { 63 }),
                ylo == (if pos.y >= 5 { pos.y - 5 } else { 0 }),
                yhi == (if pos.y + 5 <= 63 { pos.y + 5 } else { 63 }),
                zlo == (if pos.z > 0 { pos.z - 1 } else { 0 }),
                zlo <= c <= pos.z,
                ylo <= b <= yhi + 1,
                scan_ok(g, h, pos, cell_index(xlo as int, b as int, c as int), best, best_score as int),
            decreases yhi + 1 - b,
        {
            let mut a: usize = xlo;
            while a <= xhi
                invariant
                    grid.wf(),
                    ph.wf(),
                    pos_wf(pos),
                    g == *grid,
                    h == *ph,
                    xlo == (if pos.x >= 5 { pos.x - 5 } else { 0 }),
                    xhi == (if pos.x + 5 <= 63 { pos.x + 5 } else { 63 }),
                    ylo == (if pos.y >= 5 { pos.y - 5 } else { 0 }),
                    yhi == (if pos.y + 5 <= 63 { pos.y + 5 } else { 63 }),
                    zlo == (if pos.z > 0 { pos.z - 1 } else { 0 }),
                    zlo <= c <= pos.z,
                    ylo <= b <= yhi,
                    xlo <= a <= xhi + 1,
                    scan_ok(g, h, pos, cell_index(a as int, b as int, c as int), best, best_score as int),
                decreases xhi + 1 - a,
            {
                let ghost before = best;
                let ghost before_score = best_score as int;
                proof {
                    lemma_cell_index(a as int, b as int, c as int);
                }
                if grid.get(a, b, c) == TileKind::Dirt {
                    let score = score_of(ph, pos, a, b, c);
                    if score > best_score {
                        best_score = score;
                        best = Some((a, b, c));
                    }
                }
                proof {
                    assert forall|a2: int, b2: int, c2: int| #[trigger]
                        dig_candidate(g, pos, a2, b2, c2) && cell_index(a2, b2, c2) < cell_index(a as int, b as int, c as int) + 1
                        implies candidate_score(h, pos, a2, b2, c2) <= best_score && (best matches Some(t) && cell_index(a2, b2, c2) < cell_index(t.0 as int, t.1 as int, t.2 as int) ==> candidate_score(h, pos, a2, b2, c2) < best_score) by {
                        lemma_cell_index(a2, b2, c2);
                        if cell_index(a2, b2, c2) == cell_index(a as int, b as int, c as int) {
                            assert(a2 == a && b2 == b && c2 == c);
                        }
                    }
                }
                a = a + 1;
            }
            proof {
                lemma_row_gap(xlo as int, xhi as int, b as int, c as int);
                lemma_scan_skip(g, h, pos, cell_index(a as int, b as int, c as int), cell_index(xlo as int, b + 1, c as int), best, best_score as int);
            }
            b = b + 1;
        }
        proof {
            lemma_level_gap(xlo as int, xhi as int, ylo as int, yhi as int, c as int);
            lemma_scan_skip(g, h, pos, cell_index(xlo as int, b as int, c as int), cell_index(xlo as int, ylo as int, c + 1), best, best_score as int);
        }
        c = c + 1;
    }
    proof {
        lemma_scan_skip(g, h, pos, cell_index(xlo as int, ylo as int, c as int), 0x1_0000_0000, best, best_score as int);
        match best {
            Some(t) => {
                let s = (t.0 as int, t.1 as int, t.2 as int);
                assert(is_best_dig(g, h, pos, s.0, s.1, s.2));
                let u = choose|u: (int, int, int)| is_best_dig(g, h, pos, u.0, u.1, u.2);
                lemma_best_dig_unique(g, h, pos, s, u);
            },
            None => {
                assert(!exists|u: (int, int, int)| is_best_dig(g, h, pos, u.0, u.1, u.2));
            },
        }
    }
    best
}

} // verus!
