//! The whole colony and the order in which one tick runs its stages.
use rand::rngs::StdRng;
use vstd::prelude::*;

use crate::ants::{
    abs, ant_wf, fresh_ant, nest_wf, trees_wf, Ant, Carrying, Caste, GridPosition, NestLocation,
    Task,
};
use crate::pheromones::{clamp_scent, faded, PheromoneGrids, PheromoneType, DECAY_RATE};
use crate::rng::{draw_range, draw_ratio, seeded};
use crate::tasks::{
    alive, ant_behavior, ant_carrying, ant_digging, ant_feeding, ant_foraging, ant_gardening,
    ant_hunger, ant_starvation, carry_ant, carry_garden, dig_ant, dig_tiles, feed_ant, feed_garden,
    forage_ant, forage_trees, garden_after, garden_ant, harvests, hunger_ant, lemma_survivors,
    survivors,
    marks_home, move_weights, total_weight, trail_laid, behave, wanders, TickDraws, HARVEST_SCENT, HOME_SCENT,
};
use crate::world::{
    grown, initial_tile, spawn_tree, tree_part, FungusGarden, LeafSource, Plant, TileKind, Tree, TreeCanopyMarker, WorldGrid,
};
use crate::{cell_index, in_bounds, CELLS, SURFACE_LEVEL, WORLD_SIZE};

verus! {

/// Every ant is well formed.
pub open spec fn ants_wf(ants: Seq<Ant>) -> bool {
    forall|i: int| 0 <= i < ants.len() ==> #[trigger] ant_wf(ants[i])
}

/// The hunger stage over all ants.
pub fn hunger_pass(ants: &mut Vec<Ant>)
    requires
        ants_wf(old(ants)@),
    ensures
        ants_wf(final(ants)@),
        final(ants)@.len() == old(ants)@.len(),
        forall|i: int|
            0 <= i < old(ants)@.len() ==> #[trigger] final(ants)@[i] == hunger_ant(old(ants)@[i]),
{
    let ghost start = ants@;
    let mut i: usize = 0;
    while i < ants.len()
        invariant
            i <= ants@.len(),
            ants@.len() == start.len(),
            ants_wf(start),
            forall|j: int| 0 <= j < i ==> #[trigger] ants@[j] == hunger_ant(start[j]),
            forall|j: int| i <= j < ants@.len() ==> #[trigger] ants@[j] == start[j],
            forall|j: int| 0 <= j < i ==> #[trigger] ant_wf(ants@[j]),
        decreases ants@.len() - i,
    {
        let mut a = ants[i];
        assert(ant_wf(start[i as int]));
        ant_hunger(&mut a);
        ants.set(i, a);
        i = i + 1;
    }
    assert forall|j: int| 0 <= j < ants@.len() implies #[trigger] ant_wf(ants@[j]) by {}
}

/// Tiles and ants after the digging stage has run over `ants` in order.
pub open spec fn digging_pass(tiles: Seq<TileKind>, ants: Seq<Ant>) -> (Seq<TileKind>, Seq<Ant>)
    decreases ants.len(),
{
    if ants.len() == 0 {
        (tiles, ants)
    } else {
        let (t, done) = digging_pass(tiles, ants.drop_last());
        (dig_tiles(t, ants.last()), done.push(dig_ant(ants.last())))
    }
}

/// Cell `i` of `new` is cell `i` of `old`, or dirt there was dug out to
/// tunnel.
pub open spec fn dug_from(old: Seq<TileKind>, new: Seq<TileKind>, i: int) -> bool {
    new[i] == old[i] || (old[i] == TileKind::Dirt && new[i] == TileKind::Tunnel)
}

/// The digging stage only ever turns dirt into tunnel.
pub proof fn lemma_digging_only_tunnels(tiles: Seq<TileKind>, ants: Seq<Ant>)
    requires
        tiles.len() == CELLS,
        ants_wf(ants),
    ensures
        digging_pass(tiles, ants).0.len() == tiles.len(),
        forall|i: int| 0 <= i < tiles.len() ==> #[trigger] dug_from(tiles, digging_pass(tiles, ants).0, i),
    decreases ants.len(),
{
    if ants.len() > 0 {
        let init = ants.drop_last();
        assert forall|i: int| 0 <= i < init.len() implies #[trigger] ant_wf(init[i]) by {
            assert(ant_wf(ants[i]));
        }
        lemma_digging_only_tunnels(tiles, init);
        let t = digging_pass(tiles, init).0;
        let a = ants.last();
        assert(ant_wf(ants[ants.len() - 1]));
        if let Task::Digging { target_x, target_y, target_z } = a.task {
            crate::lemma_cell_index(target_x as int, target_y as int, target_z as int);
        }
        assert forall|i: int| 0 <= i < tiles.len() implies #[trigger] dug_from(
            tiles,
            digging_pass(tiles, ants).0,
            i,
        ) by {
            assert(dug_from(tiles, t, i));
        }
    }
}

/// The digging stage over all ants, one after another.
pub fn digging_pass_run(ants: &mut Vec<Ant>, grid: &mut WorldGrid)
    requires
        ants_wf(old(ants)@),
        old(grid).wf(),
    ensures
        final(ants)@.len() == old(ants)@.len(),
        ants_wf(final(ants)@),
        final(grid).wf(),
        (final(grid).tiles@, final(ants)@) == digging_pass(old(grid).tiles@, old(ants)@),
{
    let ghost start = ants@;
    let ghost tiles0 = grid.tiles@;
    let mut i: usize = 0;
    while i < ants.len()
        invariant
            i <= ants@.len(),
            ants@.len() == start.len(),
            ants_wf(start),
            grid.wf(),
            (grid.tiles@, ants@.take(i as int)) == digging_pass(tiles0, start.take(i as int)),
            forall|j: int| i <= j < ants@.len() ==> #[trigger] ants@[j] == start[j],
            forall|j: int| 0 <= j < i ==> #[trigger] ant_wf(ants@[j]),
        decreases ants@.len() - i,
    {
        let mut a = ants[i];
        assert(ant_wf(start[i as int]));
        assert(start.take(i + 1).drop_last() == start.take(i as int));
        ant_digging(&mut a, grid);
        ants.set(i, a);
        assert(ants@.take(i + 1) == ants@.take(i as int).push(a));
        i = i + 1;
    }
    assert(start.take(start.len() as int) == start);
    assert(ants@.take(ants@.len() as int) == ants@);
    assert forall|j: int| 0 <= j < ants@.len() implies #[trigger] ant_wf(ants@[j]) by {}
}

/// Field `f` with `amount` added at `p` (held to the scent range) when
/// `laid`, and unchanged otherwise.
pub open spec fn lay(f: Seq<u32>, laid: bool, p: GridPosition, amount: int) -> Seq<u32> {
    if laid {
        let i = cell_index(p.x as int, p.y as int, p.z as int);
        f.update(i, clamp_scent(f[i] + amount))
    } else {
        f
    }
}

/// Trees, forage scent and ants after the foraging stage has run over
/// `ants` in order.
pub open spec fn foraging_pass(
    g: WorldGrid,
    trees: Seq<Plant>,
    forage: Seq<u32>,
    nest: NestLocation,
    ants: Seq<Ant>,
) -> (Seq<Plant>, Seq<u32>, Seq<Ant>)
    decreases ants.len(),
{
    if ants.len() == 0 {
        (trees, forage, ants)
    } else {
        let (t, f, done) = foraging_pass(g, trees, forage, nest, ants.drop_last());
        let a = ants.last();
        (
            forage_trees(t, a),
            lay(f, harvests(t, a), a.pos, HARVEST_SCENT as int),
            done.push(forage_ant(g, t, nest, a)),
        )
    }
}

/// The foraging stage over all ants, one after another.
pub fn foraging_pass_run(
    ants: &mut Vec<Ant>,
    trees: &mut Vec<Plant>,
    grid: &WorldGrid,
    nest: NestLocation,
    ph: &mut PheromoneGrids,
)
    requires
        ants_wf(old(ants)@),
        trees_wf(old(trees)@),
        grid.wf(),
        nest_wf(nest),
        old(ph).wf(),
    ensures
        final(ants)@.len() == old(ants)@.len(),
        ants_wf(final(ants)@),
        trees_wf(final(trees)@),
        final(ph).wf(),
        (final(trees)@, final(ph).forage@, final(ants)@) == foraging_pass(
            *grid,
            old(trees)@,
            old(ph).forage@,
            nest,
            old(ants)@,
        ),
        final(ph).dig@ == old(ph).dig@,
        final(ph).home@ == old(ph).home@,
        final(ph).avoid@ == old(ph).avoid@,
{
    let ghost start = ants@;
    let ghost trees0 = trees@;
    let ghost ph0 = *ph;
    let mut i: usize = 0;
    while i < ants.len()
        invariant
            i <= ants@.len(),
            ants@.len() == start.len(),
            ants_wf(start),
            grid.wf(),
            nest_wf(nest),
            ph.wf(),
            trees_wf(trees@),
            (trees@, ph.forage@, ants@.take(i as int)) == foraging_pass(
                *grid,
                trees0,
                ph0.forage@,
                nest,
                start.take(i as int),
            ),
            ph.dig@ == ph0.dig@,
            ph.home@ == ph0.home@,
            ph.avoid@ == ph0.avoid@,
            forall|j: int| i <= j < ants@.len() ==> #[trigger] ants@[j] == start[j],
            forall|j: int| 0 <= j < i ==> #[trigger] ant_wf(ants@[j]),
        decreases ants@.len() - i,
    {
        let mut a = ants[i];
        assert(ant_wf(start[i as int]));
        assert(start.take(i + 1).drop_last() == start.take(i as int));
        let ghost before = *ph;
        ant_foraging(&mut a, trees, grid, nest, ph);
        assert(ph.field(PheromoneType::Dig) == before.field(PheromoneType::Dig));
        assert(ph.field(PheromoneType::Home) == before.field(PheromoneType::Home));
        assert(ph.field(PheromoneType::Avoid) == before.field(PheromoneType::Avoid));
        ants.set(i, a);
        assert(ants@.take(i + 1) == ants@.take(i as int).push(a));
        i = i + 1;
    }
    assert(start.take(start.len() as int) == start);
    assert(ants@.take(ants@.len() as int) == ants@);
    assert forall|j: int| 0 <= j < ants@.len() implies #[trigger] ant_wf(ants@[j]) by {}
}

/// The foraging stage neither adds nor removes trees or ants.
pub proof fn lemma_foraging_keeps_trees(
    g: WorldGrid,
    trees: Seq<Plant>,
    forage: Seq<u32>,
    nest: NestLocation,
    ants: Seq<Ant>,
)
    ensures
        foraging_pass(g, trees, forage, nest, ants).0.len() == trees.len(),
        foraging_pass(g, trees, forage, nest, ants).2.len() == ants.len(),
    decreases ants.len(),
{
    if ants.len() > 0 {
        lemma_foraging_keeps_trees(g, trees, forage, nest, ants.drop_last());
    }
}

/// Garden, home scent and ants after the carrying stage has run over
/// `ants` in order.
pub open spec fn carrying_pass(g: WorldGrid, garden: FungusGarden, home: Seq<u32>, ants: Seq<Ant>) -> (
    FungusGarden,
    Seq<u32>,
    Seq<Ant>,
)
    decreases ants.len(),
{
    if ants.len() == 0 {
        (garden, home, ants)
    } else {
        let (gd, h, done) = carrying_pass(g, garden, home, ants.drop_last());
        let a = ants.last();
        (carry_garden(gd, a), lay(h, marks_home(a), a.pos, HOME_SCENT as int), done.push(carry_ant(g, a)))
    }
}

/// The carrying stage over all ants, one after another.
pub fn carrying_pass_run(
    ants: &mut Vec<Ant>,
    grid: &WorldGrid,
    garden: &mut FungusGarden,
    ph: &mut PheromoneGrids,
)
    requires
        ants_wf(old(ants)@),
        grid.wf(),
        old(ph).wf(),
    ensures
        final(ants)@.len() == old(ants)@.len(),
        final(garden).growth_progress == old(garden).growth_progress,
        ants_wf(final(ants)@),
        final(ph).wf(),
        (*final(garden), final(ph).home@, final(ants)@) == carrying_pass(
            *grid,
            *old(garden),
            old(ph).home@,
            old(ants)@,
        ),
        final(ph).dig@ == old(ph).dig@,
        final(ph).forage@ == old(ph).forage@,
        final(ph).avoid@ == old(ph).avoid@,
{
    let ghost start = ants@;
    let ghost garden0 = *garden;
    let ghost ph0 = *ph;
    let mut i: usize = 0;
    while i < ants.len()
        invariant
            garden.growth_progress == garden0.growth_progress,
            i <= ants@.len(),
            ants@.len() == start.len(),
            ants_wf(start),
            grid.wf(),
            ph.wf(),
            (*garden, ph.home@, ants@.take(i as int)) == carrying_pass(
                *grid,
                garden0,
                ph0.home@,
                start.take(i as int),
            ),
            ph.dig@ == ph0.dig@,
            ph.forage@ == ph0.forage@,
            ph.avoid@ == ph0.avoid@,
            forall|j: int| i <= j < ants@.len() ==> #[trigger] ants@[j] == start[j],
            forall|j: int| 0 <= j < i ==> #[trigger] ant_wf(ants@[j]),
        decreases ants@.len() - i,
    {
        let mut a = ants[i];
        assert(ant_wf(start[i as int]));
        assert(start.take(i + 1).drop_last() == start.take(i as int));
        let ghost before = *ph;
        ant_carrying(&mut a, grid, garden, ph);
        assert(ph.field(PheromoneType::Dig) == before.field(PheromoneType::Dig));
        assert(ph.field(PheromoneType::Forage) == before.field(PheromoneType::Forage));
        assert(ph.field(PheromoneType::Avoid) == before.field(PheromoneType::Avoid));
        ants.set(i, a);
        assert(ants@.take(i + 1) == ants@.take(i as int).push(a));
        i = i + 1;
    }
    assert(start.take(start.len() as int) == start);
    assert(ants@.take(ants@.len() as int) == ants@);
    assert forall|j: int| 0 <= j < ants@.len() implies #[trigger] ant_wf(ants@[j]) by {}
}

/// Garden and ants after the gardening stage has run over `ants` in order.
pub open spec fn gardening_pass(garden: FungusGarden, nest: NestLocation, ants: Seq<Ant>) -> (
    FungusGarden,
    Seq<Ant>,
)
    decreases ants.len(),
{
    if ants.len() == 0 {
        (garden, ants)
    } else {
        let (gd, done) = gardening_pass(garden, nest, ants.drop_last());
        (garden_after(gd, nest, ants.last()), done.push(garden_ant(gd, nest, ants.last())))
    }
}

/// The gardening stage over all ants, one after another.
pub fn gardening_pass_run(ants: &mut Vec<Ant>, garden: &mut FungusGarden, nest: NestLocation)
    requires
        ants_wf(old(ants)@),
    ensures
        final(ants)@.len() == old(ants)@.len(),
        final(garden).growth_progress == old(garden).growth_progress,
        ants_wf(final(ants)@),
        (*final(garden), final(ants)@) == gardening_pass(*old(garden), nest, old(ants)@),
{
    let ghost start = ants@;
    let ghost garden0 = *garden;
    let mut i: usize = 0;
    while i < ants.len()
        invariant
            garden.growth_progress == garden0.growth_progress,
            i <= ants@.len(),
            ants@.len() == start.len(),
            ants_wf(start),
            (*garden, ants@.take(i as int)) == gardening_pass(garden0, nest, start.take(i as int)),
            forall|j: int| i <= j < ants@.len() ==> #[trigger] ants@[j] == start[j],
            forall|j: int| 0 <= j < i ==> #[trigger] ant_wf(ants@[j]),
        decreases ants@.len() - i,
    {
        let mut a = ants[i];
        assert(ant_wf(start[i as int]));
        assert(start.take(i + 1).drop_last() == start.take(i as int));
        ant_gardening(&mut a, garden, nest);
        ants.set(i, a);
        assert(ants@.take(i + 1) == ants@.take(i as int).push(a));
        i = i + 1;
    }
    assert(start.take(start.len() as int) == start);
    assert(ants@.take(ants@.len() as int) == ants@);
    assert forall|j: int| 0 <= j < ants@.len() implies #[trigger] ant_wf(ants@[j]) by {}
}

/// Garden and ants after the feeding stage has run over `ants` in order.
pub open spec fn feeding_pass(g: WorldGrid, garden: FungusGarden, nest: NestLocation, ants: Seq<Ant>) -> (
    FungusGarden,
    Seq<Ant>,
)
    decreases ants.len(),
{
    if ants.len() == 0 {
        (garden, ants)
    } else {
        let (gd, done) = feeding_pass(g, garden, nest, ants.drop_last());
        (feed_garden(gd, nest, ants.last()), done.push(feed_ant(g, gd, nest, ants.last())))
    }
}

/// The feeding stage over all ants, one after another.
pub fn feeding_pass_run(
    ants: &mut Vec<Ant>,
    garden: &mut FungusGarden,
    nest: NestLocation,
    grid: &WorldGrid,
)
    requires
        ants_wf(old(ants)@),
        grid.wf(),
        nest_wf(nest),
    ensures
        final(ants)@.len() == old(ants)@.len(),
        final(garden).growth_progress == old(garden).growth_progress,
        ants_wf(final(ants)@),
        (*final(garden), final(ants)@) == feeding_pass(*grid, *old(garden), nest, old(ants)@),
{
    let ghost start = ants@;
    let ghost garden0 = *garden;
    let mut i: usize = 0;
    while i < ants.len()
        invariant
            garden.growth_progress == garden0.growth_progress,
            i <= ants@.len(),
            ants@.len() == start.len(),
            ants_wf(start),
            grid.wf(),
            nest_wf(nest),
            (*garden, ants@.take(i as int)) == feeding_pass(*grid, garden0, nest, start.take(i as int)),
            forall|j: int| i <= j < ants@.len() ==> #[trigger] ants@[j] == start[j],
            forall|j: int| 0 <= j < i ==> #[trigger] ant_wf(ants@[j]),
        decreases ants@.len() - i,
    {
        let mut a = ants[i];
        assert(ant_wf(start[i as int]));
        assert(start.take(i + 1).drop_last() == start.take(i as int));
        ant_feeding(&mut a, garden, nest, grid);
        ants.set(i, a);
        assert(ants@.take(i + 1) == ants@.take(i as int).push(a));
        i = i + 1;
    }
    assert(start.take(start.len() as int) == start);
    assert(ants@.take(ants@.len() as int) == ants@);
    assert forall|j: int| 0 <= j < ants@.len() implies #[trigger] ant_wf(ants@[j]) by {}
}

/// One ant's turn in the decision stage: with scent `h0` before it and `h1`
/// after it, draws `d` (a wanderer's roll below the total weight of its
/// directions) take ant `a` to `b` as `behave` says; a wanderer lays trail
/// scent as `trail_laid` says, and any other ant leaves the scent as it was.
pub open spec fn behavior_step(
    g: WorldGrid,
    h0: PheromoneGrids,
    h1: PheromoneGrids,
    trees: Seq<Plant>,
    leaves: u32,
    nest: NestLocation,
    a: Ant,
    d: TickDraws,
    b: Ant,
) -> bool {
    &&& h0.wf()
    &&& wanders(a) && total_weight(g, h0, a.pos) > 0 ==> d.roll < total_weight(g, h0, a.pos)
    &&& b == behave(g, h0, trees, leaves, nest, a, d)
    &&& if wanders(a) {
        trail_laid(h0, h1, a.pos, b.pos)
    } else {
        h1 == h0
    }
}

/// The decision stage took `ants` to `out` one after another, with the
/// scent passing from `hs[j]` to `hs[j + 1]` on ant `j`'s turn under draws
/// `ds[j]`; `hs` runs from `ph0` to `ph1`.
pub open spec fn behavior_run(
    g: WorldGrid,
    ph0: PheromoneGrids,
    ph1: PheromoneGrids,
    trees: Seq<Plant>,
    leaves: u32,
    nest: NestLocation,
    ants: Seq<Ant>,
    out: Seq<Ant>,
    hs: Seq<PheromoneGrids>,
    ds: Seq<TickDraws>,
) -> bool {
    &&& hs.len() == ants.len() + 1
    &&& ds.len() == ants.len()
    &&& out.len() == ants.len()
    &&& hs[0] == ph0
    &&& hs[ants.len() as int] == ph1
    &&& forall|j: int|
        #![trigger ds[j]]
        0 <= j < ants.len() ==> behavior_step(
            g,
            hs[j],
            hs[j + 1],
            trees,
            leaves,
            nest,
            ants[j],
            ds[j],
            out[j],
        )
}

/// Some draws take `ants` to `out` and the scent from `ph0` to `ph1` in the
/// decision stage, as `behavior_run` says.
pub open spec fn behaved(
    g: WorldGrid,
    ph0: PheromoneGrids,
    ph1: PheromoneGrids,
    trees: Seq<Plant>,
    leaves: u32,
    nest: NestLocation,
    ants: Seq<Ant>,
    out: Seq<Ant>,
) -> bool {
    exists|hs: Seq<PheromoneGrids>, ds: Seq<TickDraws>|
        #[trigger] behavior_run(g, ph0, ph1, trees, leaves, nest, ants, out, hs, ds)
}

/// The decision stage over all ants, one after another, with fresh draws
/// from `rng` for each: chances of 3, 5 and 1 in 10 for foraging, heading
/// home and digging, 1 in 30 for a wanderer to stop, and a roll below the
/// total weight of a wanderer's directions. Whatever was drawn, ants and
/// scent end as `behaved` says.
pub fn behavior_pass(
    ants: &mut Vec<Ant>,
    grid: &WorldGrid,
    ph: &mut PheromoneGrids,
    trees: &Vec<Plant>,
    leaves: u32,
    nest: NestLocation,
    rng: &mut StdRng,
)
    requires
        ants_wf(old(ants)@),
        grid.wf(),
        old(ph).wf(),
        trees_wf(trees@),
        nest_wf(nest),
    ensures
        ants_wf(final(ants)@),
        final(ph).wf(),
        final(ants)@.len() == old(ants)@.len(),
        behaved(*grid, *old(ph), *final(ph), trees@, leaves, nest, old(ants)@, final(ants)@),
{
    let ghost start = ants@;
    let ghost mut hs: Seq<PheromoneGrids> = seq![*ph];
    let ghost mut ds: Seq<TickDraws> = Seq::empty();
    let mut i: usize = 0;
    while i < ants.len()
        invariant
            i <= ants@.len(),
            ants@.len() == start.len(),
            hs.len() == i + 1,
            ds.len() == i,
            hs[0] == *old(ph),
            hs[i as int] == *ph,
            ants_wf(start),
            grid.wf(),
            ph.wf(),
            trees_wf(trees@),
            nest_wf(nest),
            forall|j: int| i <= j < ants@.len() ==> #[trigger] ants@[j] == start[j],
            forall|j: int| 0 <= j < i ==> #[trigger] ant_wf(ants@[j]),
            forall|j: int|
                #![trigger ds[j]]
                0 <= j < i ==> behavior_step(
                    *grid,
                    hs[j],
                    hs[j + 1],
                    trees@,
                    leaves,
                    nest,
                    start[j],
                    ds[j],
                    ants@[j],
                ),
        decreases ants@.len() - i,
    {
        let mut a = ants[i];
        assert(ant_wf(start[i as int]));
        let forage = draw_ratio(rng, 3, 10);
        let garden = draw_ratio(rng, 5, 10);
        let dig = draw_ratio(rng, 1, 10);
        let rest = draw_ratio(rng, 1, 30);
        let mut roll: u64 = 0;
        if a.caste != Caste::Queen && a.carrying == Carrying::Nothing && a.task == Task::Wandering {
            let (w0, w1, w2, w3) = move_weights(grid, ph, a.pos);
            let total = w0 + w1 + w2 + w3;
            if total > 0 {
                roll = draw_range(rng, 0, total);
            }
        }
        let draws = TickDraws { forage, garden, dig, roll, rest };
        let ghost h0 = *ph;
        ant_behavior(&mut a, grid, ph, trees, leaves, nest, draws);
        let ghost prev = ants@;
        ants.set(i, a);
        proof {
            assert(behavior_step(*grid, h0, *ph, trees@, leaves, nest, start[i as int], draws, a));
            let hs_old = hs;
            let ds_old = ds;
            hs = hs.push(*ph);
            ds = ds.push(draws);
            assert forall|j: int|
                #![trigger ds[j]]
                0 <= j < i + 1 implies behavior_step(
                *grid,
                hs[j],
                hs[j + 1],
                trees@,
                leaves,
                nest,
                start[j],
                ds[j],
                ants@[j],
            ) by {
                if j < i {
                    assert(ds_old[j] == ds[j]);
                    assert(hs_old[j] == hs[j] && hs_old[j + 1] == hs[j + 1]);
                    assert(prev[j] == ants@[j]);
                }
            }
        }
        i = i + 1;
    }
    assert forall|j: int| 0 <= j < ants@.len() implies #[trigger] ant_wf(ants@[j]) by {}
    assert(behavior_run(*grid, *old(ph), *ph, trees@, leaves, nest, start, ants@, hs, ds));
}

/// The tree spot (x, y) keeps clear of the middle of the world, where the
/// colony is founded.
pub open spec fn clear_of_center(x: int, y: int) -> bool {
    !(abs(x - 32) < 8 && abs(y - 32) < 8)
}

/// The trees planted at `spots`, in order, leaving out spots too near the
/// middle.
pub open spec fn planted(spots: Seq<(usize, usize)>) -> Seq<Plant>
    decreases spots.len(),
{
    if spots.len() == 0 {
        Seq::empty()
    } else {
        let rest = planted(spots.drop_last());
        let (x, y) = spots.last();
        if clear_of_center(x as int, y as int) {
            rest.push(
                Plant {
                    tree: Tree { x, y },
                    source: LeafSource { leaves_remaining: 20, max_leaves: 20, regrow_timer: 0 },
                    canopy: TreeCanopyMarker { z: 53 },
                },
            )
        } else {
            rest
        }
    }
}

/// The tile at (x, y, z), where `base` stood, after trees were planted at
/// each spot of `spots` that keeps clear of the middle, in order.
pub open spec fn tile_after_planting(base: TileKind, spots: Seq<(usize, usize)>, x: int, y: int, z: int) -> TileKind
    decreases spots.len(),
{
    if spots.len() == 0 {
        base
    } else {
        let prev = tile_after_planting(base, spots.drop_last(), x, y, z);
        let (tx, ty) = spots.last();
        if clear_of_center(tx as int, ty as int) {
            match tree_part(tx as int, ty as int, x, y, z) {
                Some(k) => k,
                None => prev,
            }
        } else {
            prev
        }
    }
}

/// Plants a tree at each spot of `spots` that keeps clear of the middle.
pub fn plant_trees(grid: &mut WorldGrid, spots: &Vec<(usize, usize)>) -> (r: Vec<Plant>)
    requires
        old(grid).wf(),
        forall|i: int|
            0 <= i < spots@.len() ==> #[trigger] spots@[i].0 < WORLD_SIZE && spots@[i].1
                < WORLD_SIZE,
    ensures
        final(grid).wf(),
        r@ == planted(spots@),
        trees_wf(r@),
        forall|x: int, y: int, z: int|
            in_bounds(x, y, z) ==> #[trigger] final(grid).tile(x, y, z) == tile_after_planting(
                old(grid).tile(x, y, z),
                spots@,
                x,
                y,
                z,
            ),
{
    let ghost g0 = *grid;
    let mut trees: Vec<Plant> = Vec::new();
    let mut i: usize = 0;
    while i < spots.len()
        invariant
            i <= spots@.len(),
            grid.wf(),
            forall|j: int|
                0 <= j < spots@.len() ==> #[trigger] spots@[j].0 < WORLD_SIZE && spots@[j].1
                    < WORLD_SIZE,
            trees@ == planted(spots@.take(i as int)),
            trees_wf(trees@),
            forall|x: int, y: int, z: int|
                in_bounds(x, y, z) ==> #[trigger] grid.tile(x, y, z) == tile_after_planting(
                    g0.tile(x, y, z),
                    spots@.take(i as int),
                    x,
                    y,
                    z,
                ),
        decreases spots@.len() - i,
    {
        let (x, y) = spots[i];
        assert(spots@.take(i + 1).drop_last() == spots@.take(i as int));
        assert(spots@[i as int].0 < WORLD_SIZE && spots@[i as int].1 < WORLD_SIZE);
        let dx = if x >= 32 { x - 32 } else { 32 - x };
        let dy = if y >= 32 { y - 32 } else { 32 - y };
        let ghost before = *grid;
        if !(dx < 8 && dy < 8) {
            let p = spawn_tree(grid, x, y);
            trees.push(p);
        }
        assert forall|a: int, b: int, c: int| in_bounds(a, b, c) implies #[trigger] grid.tile(a, b, c)
            == tile_after_planting(g0.tile(a, b, c), spots@.take(i + 1), a, b, c) by {
            assert(before.tile(a, b, c) == tile_after_planting(g0.tile(a, b, c), spots@.take(i as int), a, b, c));
        }
        i = i + 1;
    }
    assert(spots@.take(spots@.len() as int) == spots@);
    trees
}

/// Number of trees the world starts with, at most.
pub const TREE_ATTEMPTS: usize = 8;

/// `trees` and grid `g1` come from planting at `spots`, eight spots in
/// `5..59` on each axis, over grid `g0`.
pub open spec fn drawn_world(g0: WorldGrid, g1: WorldGrid, trees: Seq<Plant>, spots: Seq<(usize, usize)>) -> bool {
    &&& spots.len() == TREE_ATTEMPTS
    &&& forall|j: int| 0 <= j < spots.len() ==> 5 <= #[trigger] spots[j].0 < 59 && 5 <= spots[j].1 < 59
    &&& trees == planted(spots)
    &&& forall|x: int, y: int, z: int|
        in_bounds(x, y, z) ==> #[trigger] g1.tile(x, y, z) == tile_after_planting(
            g0.tile(x, y, z),
            spots,
            x,
            y,
            z,
        )
}

/// Plants up to eight trees at spots drawn uniformly in `5..59` on each
/// axis, skipping those too near the middle.
pub fn init_world_with_trees(grid: &mut WorldGrid, rng: &mut StdRng) -> (r: Vec<Plant>)
    requires
        old(grid).wf(),
    ensures
        final(grid).wf(),
        trees_wf(r@),
        r@.len() <= TREE_ATTEMPTS,
        forall|i: int| 0 <= i < r@.len() ==> #[trigger] starting_tree(r@[i]),
        exists|spots: Seq<(usize, usize)>| #[trigger] drawn_world(*old(grid), *final(grid), r@, spots),
{
    let ghost g0 = *grid;
    let mut spots: Vec<(usize, usize)> = Vec::new();
    let mut k: usize = 0;
    while k < TREE_ATTEMPTS
        invariant
            k <= TREE_ATTEMPTS,
            spots@.len() == k,
            forall|j: int|
                0 <= j < spots@.len() ==> 5 <= #[trigger] spots@[j].0 < 59 && 5 <= spots@[j].1
                    < 59,
        decreases TREE_ATTEMPTS - k,
    {
        let x = draw_range(rng, 5, (WORLD_SIZE - 5) as u64) as usize;
        let y = draw_range(rng, 5, (WORLD_SIZE - 5) as u64) as usize;
        spots.push((x, y));
        k = k + 1;
    }
    let r = plant_trees(grid, &spots);
    proof {
        lemma_planted(spots@);
        assert(drawn_world(g0, *grid, r@, spots@));
    }
    r
}

/// A tree drawn for the starting world: within `5..59` on each axis, clear
/// of the middle, with a full set of leaves and its canopy at level 53.
pub open spec fn starting_tree(p: Plant) -> bool {
    &&& 5 <= p.tree.x < 59
    &&& 5 <= p.tree.y < 59
    &&& clear_of_center(p.tree.x as int, p.tree.y as int)
    &&& p.source == (LeafSource { leaves_remaining: 20, max_leaves: 20, regrow_timer: 0 })
    &&& p.canopy.z == 53
}

/// No more trees are planted than there are spots, and spots drawn in
/// `5..59` give starting trees.
proof fn lemma_planted(spots: Seq<(usize, usize)>)
    ensures
        planted(spots).len() <= spots.len(),
        (forall|i: int|
            0 <= i < spots.len() ==> 5 <= #[trigger] spots[i].0 < 59 && 5 <= spots[i].1 < 59)
            ==> forall|i: int|
            0 <= i < planted(spots).len() ==> #[trigger] starting_tree(planted(spots)[i]),
    decreases spots.len(),
{
    if spots.len() > 0 {
        let init = spots.drop_last();
        lemma_planted(init);
        if forall|i: int|
            0 <= i < spots.len() ==> 5 <= #[trigger] spots[i].0 < 59 && 5 <= spots[i].1 < 59 {
            assert forall|i: int|
                0 <= i < init.len() implies 5 <= #[trigger] init[i].0 < 59 && 5 <= init[i].1 < 59 by {
                assert(spots[i] == init[i]);
            }
            assert(5 <= spots[spots.len() - 1].0 < 59);
        }
    }
}

/// How many ants of each caste live.
#[derive(Debug, Clone, Copy, PartialEq, Eq, Structural)]
pub struct CasteCounts {
    pub queens: usize,
    pub foragers: usize,
    pub gardeners: usize,
    pub soldiers: usize,
}

/// Number of ants of caste `c` in `ants`.
pub open spec fn count_caste(ants: Seq<Ant>, c: Caste) -> nat
    decreases ants.len(),
{
    if ants.len() == 0 {
        0
    } else {
        count_caste(ants.drop_last(), c) + if ants.last().caste == c {
            1nat
        } else {
            0nat
        }
    }
}

/// `count_caste` never exceeds the number of ants.
proof fn lemma_count_caste_len(ants: Seq<Ant>, c: Caste)
    ensures
        count_caste(ants, c) <= ants.len(),
    decreases ants.len(),
{
    if ants.len() > 0 {
        lemma_count_caste_len(ants.drop_last(), c);
    }
}

/// Scent a viewer places with one click.
pub const PLACED_SCENT: i32 = 1000;

/// The whole colony: the world, its scent, the garden, the nest, the ants
/// and the trees, with the generator that draws its chances.
pub struct Simulation {
    pub grid: WorldGrid,
    pub pheromones: PheromoneGrids,
    pub garden: FungusGarden,
    pub nest: NestLocation,
    pub ants: Vec<Ant>,
    pub trees: Vec<Plant>,
    pub rng: StdRng,
}

/// `t` is `s` one tick later, for decisions that took the hungrier ants to
/// `decided_ants` and the scent to `ph1`: hunger rises on every ant; the
/// decision stage runs as `behaved` says; then digging, foraging, carrying,
/// gardening and feeding run over the ants in order as their passes say;
/// starved ants are removed; every scent fades by `DECAY_RATE`; and the
/// fungus grows once.
pub open spec fn ticked(s: Simulation, t: Simulation, decided_ants: Seq<Ant>, ph1: PheromoneGrids) -> bool {
    let hungrier = s.ants@.map_values(|a: Ant| hunger_ant(a));
    let (tiles, dug) = digging_pass(s.grid.tiles@, decided_ants);
    let (trees, forage, foraged) = foraging_pass(t.grid, s.trees@, ph1.forage@, s.nest, dug);
    let (carried_garden, home, carried) = carrying_pass(t.grid, s.garden, ph1.home@, foraged);
    let (tended_garden, tended) = gardening_pass(carried_garden, s.nest, carried);
    let (fed_garden, fed) = feeding_pass(t.grid, tended_garden, s.nest, tended);
    &&& behaved(s.grid, s.pheromones, ph1, s.trees@, s.garden.leaves, s.nest, hungrier, decided_ants)
    &&& t.grid.tiles@ == tiles
    &&& t.trees@ == trees
    &&& t.nest == s.nest
    &&& t.ants@ == survivors(fed)
    &&& t.garden == grown(fed_garden)
    &&& forall|i: int|
        0 <= i < CELLS ==> {
            &&& #[trigger] t.pheromones.dig@[i] == faded(ph1.dig@[i], DECAY_RATE)
            &&& t.pheromones.forage@[i] == faded(forage[i], DECAY_RATE)
            &&& t.pheromones.home@[i] == faded(home[i], DECAY_RATE)
            &&& t.pheromones.avoid@[i] == faded(ph1.avoid@[i], DECAY_RATE)
        }
}

/// A fresh world, layered as `initial_tile` says, with trees planted at
/// `spots` as `drawn_world` says, and `trees` the trees planted there.
pub open spec fn seeded_world(grid: WorldGrid, trees: Seq<Plant>, spots: Seq<(usize, usize)>) -> bool {
    &&& spots.len() == TREE_ATTEMPTS
    &&& forall|j: int| 0 <= j < spots.len() ==> 5 <= #[trigger] spots[j].0 < 59 && 5 <= spots[j].1 < 59
    &&& trees == planted(spots)
    &&& forall|x: int, y: int, z: int|
        in_bounds(x, y, z) ==> #[trigger] grid.tile(x, y, z) == tile_after_planting(
            initial_tile(z),
            spots,
            x,
            y,
            z,
        )
}

impl Simulation {
    /// Every part is well formed.
    pub open spec fn wf(&self) -> bool {
        &&& self.grid.wf()
        &&& self.pheromones.wf()
        &&& self.garden.wf()
        &&& nest_wf(self.nest)
        &&& ants_wf(self.ants@)
        &&& trees_wf(self.trees@)
    }

    /// A fresh world with trees planted by draws from a generator seeded
    /// with `seed`, no scent, the starting garden, the nest at the centre of
    /// the surface and no ants yet.
    pub fn new(seed: u64) -> (r: Simulation)
        ensures
            r.wf(),
            r.ants@.len() == 0,
            r.trees@.len() <= TREE_ATTEMPTS,
            forall|i: int| 0 <= i < r.trees@.len() ==> #[trigger] starting_tree(r.trees@[i]),
            exists|spots: Seq<(usize, usize)>| #[trigger] seeded_world(r.grid, r.trees@, spots),
            r.garden == (FungusGarden { leaves: 0, mulch: 0, food: 10, growth_progress: 0 }),
            r.nest == (NestLocation { x: 32, y: 32, z: SURFACE_LEVEL }),
            forall|k: PheromoneType, i: int|
                0 <= i < CELLS ==> #[trigger] r.pheromones.field(k)[i] == 0,
    {
        let mut rng = seeded(seed);
        let mut grid = WorldGrid::new();
        let ghost g0 = grid;
        let trees = init_world_with_trees(&mut grid, &mut rng);
        proof {
            let spots = choose|spots: Seq<(usize, usize)>| drawn_world(g0, grid, trees@, spots);
            assert(seeded_world(grid, trees@, spots));
        }
        Simulation {
            grid,
            pheromones: PheromoneGrids::new(),
            garden: FungusGarden::default(),
            nest: NestLocation::default(),
            ants: Vec::new(),
            trees,
            rng,
        }
    }

    /// Adds a fresh ant of caste `caste` at (x, y, z).
    pub fn spawn_ant(&mut self, x: usize, y: usize, z: usize, caste: Caste)
        requires
            old(self).wf(),
            in_bounds(x as int, y as int, z as int),
        ensures
            final(self).wf(),
            final(self).ants@ == old(self).ants@.push(fresh_ant(x, y, z, caste)),
            final(self).grid == old(self).grid,
            final(self).pheromones == old(self).pheromones,
            final(self).garden == old(self).garden,
            final(self).nest == old(self).nest,
            final(self).trees == old(self).trees,
    {
        let a = Ant::new(x, y, z, caste);
        self.ants.push(a);
        assert forall|i: int| 0 <= i < self.ants@.len() implies #[trigger] ant_wf(self.ants@[i]) by {
            if i < self.ants@.len() - 1 {
                assert(ant_wf(old(self).ants@[i]));
            }
        }
    }

    /// Founds the colony at the centre of the surface: the queen there,
    /// three foragers in a row east of her and two gardeners west of her.
    pub fn spawn_founding_colony(&mut self)
        requires
            old(self).wf(),
        ensures
            final(self).wf(),
            final(self).ants@.len() == old(self).ants@.len() + 6,
            final(self).ants@.subrange(0, old(self).ants@.len() as int) == old(self).ants@,
            final(self).ants@[old(self).ants@.len() as int] == fresh_ant(32, 32, SURFACE_LEVEL, Caste::Queen),
            forall|k: int|
                1 <= k <= 3 ==> #[trigger] final(self).ants@[old(self).ants@.len() + k] == fresh_ant(
                    (32 + k) as usize,
                    32,
                    SURFACE_LEVEL,
                    Caste::Forager,
                ),
            forall|k: int|
                4 <= k <= 5 ==> #[trigger] final(self).ants@[old(self).ants@.len() + k] == fresh_ant(
                    (35 - k) as usize,
                    32,
                    SURFACE_LEVEL,
                    Caste::Gardener,
                ),
            final(self).grid == old(self).grid,
            final(self).pheromones == old(self).pheromones,
            final(self).garden == old(self).garden,
            final(self).nest == old(self).nest,
            final(self).trees == old(self).trees,
    {
        let center = WORLD_SIZE / 2;
        self.spawn_ant(center, center, SURFACE_LEVEL, Caste::Queen);
        self.spawn_ant(center + 1, center, SURFACE_LEVEL, Caste::Forager);
        self.spawn_ant(center + 2, center, SURFACE_LEVEL, Caste::Forager);
        self.spawn_ant(center + 3, center, SURFACE_LEVEL, Caste::Forager);
        self.spawn_ant(center - 1, center, SURFACE_LEVEL, Caste::Gardener);
        self.spawn_ant(center - 2, center, SURFACE_LEVEL, Caste::Gardener);
    }

    /// Adds a forager where the first ant stands; with no ants, nothing
    /// happens and the call reports `false`.
    pub fn debug_spawn_ant(&mut self) -> (r: bool)
        requires
            old(self).wf(),
        ensures
            final(self).wf(),
            r == (old(self).ants@.len() > 0),
            r ==> final(self).ants@ == old(self).ants@.push(
                fresh_ant(
                    old(self).ants@[0].pos.x,
                    old(self).ants@[0].pos.y,
                    old(self).ants@[0].pos.z,
                    Caste::Forager,
                ),
            ),
            !r ==> final(self).ants@ == old(self).ants@,
    {
        if self.ants.len() == 0 {
            return false;
        }
        let p = self.ants[0].pos;
        assert(ant_wf(self.ants@[0]));
        self.spawn_ant(p.x, p.y, p.z, Caste::Forager);
        true
    }

    /// Adds the scent a viewer places with one click, of kind `k` at
    /// (x, y, z); a cell off the world is ignored.
    pub fn place_pheromone(&mut self, k: PheromoneType, x: i64, y: i64, z: i64)
        requires
            old(self).wf(),
        ensures
            final(self).wf(),
            in_bounds(x as int, y as int, z as int) ==> final(self).pheromones.field(k) == old(
                self,
            ).pheromones.field(k).update(
                cell_index(x as int, y as int, z as int),
                clamp_scent(old(self).pheromones.level(k, x as int, y as int, z as int) + PLACED_SCENT),
            ),
            !in_bounds(x as int, y as int, z as int) ==> final(self).pheromones == old(self).pheromones,
            forall|j: PheromoneType| j != k ==> #[trigger] final(self).pheromones.field(j) == old(
                self,
            ).pheromones.field(j),
            final(self).ants == old(self).ants,
    {
        self.pheromones.deposit(k, x, y, z, PLACED_SCENT);
    }

    /// How many ants of each caste live.
    pub fn caste_counts(&self) -> (r: CasteCounts)
        ensures
            r.queens == count_caste(self.ants@, Caste::Queen),
            r.foragers == count_caste(self.ants@, Caste::Forager),
            r.gardeners == count_caste(self.ants@, Caste::Gardener),
            r.soldiers == count_caste(self.ants@, Caste::Soldier),
    {
        let mut r = CasteCounts { queens: 0, foragers: 0, gardeners: 0, soldiers: 0 };
        let mut i: usize = 0;
        while i < self.ants.len()
            invariant
                i <= self.ants@.len(),
                r.queens == count_caste(self.ants@.take(i as int), Caste::Queen),
                r.foragers == count_caste(self.ants@.take(i as int), Caste::Forager),
                r.gardeners == count_caste(self.ants@.take(i as int), Caste::Gardener),
                r.soldiers == count_caste(self.ants@.take(i as int), Caste::Soldier),
            decreases self.ants@.len() - i,
        {
            assert(self.ants@.take(i + 1).drop_last() == self.ants@.take(i as int));
            proof {
                lemma_count_caste_len(self.ants@.take(i as int), Caste::Queen);
                lemma_count_caste_len(self.ants@.take(i as int), Caste::Forager);
                lemma_count_caste_len(self.ants@.take(i as int), Caste::Gardener);
                lemma_count_caste_len(self.ants@.take(i as int), Caste::Soldier);
            }
            match self.ants[i].caste {
                Caste::Queen => r.queens = r.queens + 1,
                Caste::Forager => r.foragers = r.foragers + 1,
                Caste::Gardener => r.gardeners = r.gardeners + 1,
                Caste::Soldier => r.soldiers = r.soldiers + 1,
            }
            i = i + 1;
        }
        assert(self.ants@.take(self.ants@.len() as int) == self.ants@);
        r
    }

    /// Advances the colony by one tick: hunger, decisions, digging,
    /// foraging, carrying, gardening, feeding and starvation over all ants in
    /// turn, then scent decay and fungus growth. No ant that is left has
    /// starved, the nest stays where it is and no tree comes or goes.
    pub fn tick(&mut self)
        requires
            old(self).wf(),
        ensures
            final(self).wf(),
            final(self).nest == old(self).nest,
            final(self).trees@.len() == old(self).trees@.len(),
            final(self).ants@.len() <= old(self).ants@.len(),
            forall|i: int| 0 <= i < final(self).ants@.len() ==> #[trigger] alive(final(self).ants@[i]),
            forall|i: int|
                0 <= i < CELLS ==> #[trigger] dug_from(old(self).grid.tiles@, final(self).grid.tiles@, i),
            exists|decided_ants: Seq<Ant>, ph1: PheromoneGrids|
                #[trigger] ticked(*old(self), *final(self), decided_ants, ph1),
    {
        let nest = self.nest;
        hunger_pass(&mut self.ants);
        assert(self.ants@ =~= old(self).ants@.map_values(|a: Ant| hunger_ant(a)));
        let leaves = self.garden.leaves;
        behavior_pass(&mut self.ants, &self.grid, &mut self.pheromones, &self.trees, leaves, nest, &mut self.rng);
        let ghost decided_ants = self.ants@;
        let ghost ph1 = self.pheromones;
        let ghost tiles0 = self.grid.tiles@;
        let ghost diggers = self.ants@;
        digging_pass_run(&mut self.ants, &mut self.grid);
        proof {
            lemma_digging_only_tunnels(tiles0, diggers);
        }
        let ghost n_trees = self.trees@.len();
        let ghost trees0 = self.trees@;
        let ghost ants0 = self.ants@;
        let ghost grid0 = self.grid;
        let ghost ph0 = self.pheromones;
        foraging_pass_run(&mut self.ants, &mut self.trees, &self.grid, nest, &mut self.pheromones);
        proof {
            lemma_foraging_keeps_trees(grid0, trees0, ph0.forage@, nest, ants0);
        }
        let ghost ants_foraged = self.ants@;
        carrying_pass_run(&mut self.ants, &self.grid, &mut self.garden, &mut self.pheromones);
        let ghost ants_carried = self.ants@;
        let ghost garden_carried = self.garden;
        gardening_pass_run(&mut self.ants, &mut self.garden, nest);
        let ghost ants_tended = self.ants@;
        let ghost garden_tended = self.garden;
        feeding_pass_run(&mut self.ants, &mut self.garden, nest, &self.grid);
        let ghost garden_fed = self.garden;
        let ghost before_decay = self.pheromones;
        let ghost before = self.ants@;
        ant_starvation(&mut self.ants);
        proof {
            lemma_survivors(before);
            assert forall|i: int| 0 <= i < self.ants@.len() implies #[trigger] ant_wf(self.ants@[i]) by {
                assert(before.contains(self.ants@[i]));
                let j = choose|j: int| 0 <= j < before.len() && before[j] == self.ants@[i];
                assert(ant_wf(before[j]));
            }
        }
        self.pheromones.decay_all(DECAY_RATE);
        self.garden.grow();
        proof {
            assert forall|i: int| 0 <= i < CELLS implies {
                &&& #[trigger] self.pheromones.dig@[i] == faded(before_decay.dig@[i], DECAY_RATE)
                &&& self.pheromones.forage@[i] == faded(before_decay.forage@[i], DECAY_RATE)
                &&& self.pheromones.home@[i] == faded(before_decay.home@[i], DECAY_RATE)
                &&& self.pheromones.avoid@[i] == faded(before_decay.avoid@[i], DECAY_RATE)
            } by {
                assert(self.pheromones.field(PheromoneType::Dig)[i] == faded(before_decay.field(PheromoneType::Dig)[i], DECAY_RATE));
                assert(self.pheromones.field(PheromoneType::Forage)[i] == faded(before_decay.field(PheromoneType::Forage)[i], DECAY_RATE));
                assert(self.pheromones.field(PheromoneType::Home)[i] == faded(before_decay.field(PheromoneType::Home)[i], DECAY_RATE));
                assert(self.pheromones.field(PheromoneType::Avoid)[i] == faded(before_decay.field(PheromoneType::Avoid)[i], DECAY_RATE));
            }
            let s0 = *old(self);
            let t = *self;
            let hungrier = s0.ants@.map_values(|a: Ant| hunger_ant(a));
            assert(behaved(s0.grid, s0.pheromones, ph1, s0.trees@, s0.garden.leaves, s0.nest, hungrier, decided_ants));
            let (tiles, dug) = digging_pass(s0.grid.tiles@, decided_ants);
            assert(t.grid.tiles@ == tiles);
            assert(dug == ants0);
            let (trees, forage, foraged) = foraging_pass(t.grid, s0.trees@, ph1.forage@, s0.nest, dug);
            assert(t.trees@ == trees);
            assert(foraged == ants_foraged);
            let (cg, home, carried) = carrying_pass(t.grid, s0.garden, ph1.home@, foraged);
            assert(cg == garden_carried && carried == ants_carried);
            let (tg, tended) = gardening_pass(cg, s0.nest, carried);
            assert(tg == garden_tended && tended == ants_tended);
            let (fg, fed) = feeding_pass(t.grid, tg, s0.nest, tended);
            assert(fg == garden_fed && fed == before);
            assert(t.ants@ == survivors(fed));
            assert(t.garden == grown(fg));
            assert(forage == before_decay.forage@);
            assert(home == before_decay.home@);
            assert(ticked(s0, t, decided_ants, ph1));
        }
    }
}

} // verus!
