use acre::ants::{Ant, Carrying, Caste, GridPosition, NestLocation, Task};
use acre::pheromones::{PheromoneGrids, PheromoneType};
use acre::search::{
    find_diggable_tile, find_forage_target, find_nearest_tree, find_pheromone_dig_target,
};
use acre::tasks::{ant_behavior, choose_direction, move_weights, try_pheromone_biased_move, TickDraws};
use acre::world::{spawn_tree, Plant, TileKind, WorldGrid};

fn no_draws() -> TickDraws {
    TickDraws { forage: false, garden: false, dig: false, roll: 0, rest: false }
}

fn ant_at(x: usize, y: usize, z: usize, caste: Caste, task: Task) -> Ant {
    let mut a = Ant::new(x, y, z, caste);
    a.task = task;
    a
}

fn two_trees(grid: &mut WorldGrid) -> Vec<Plant> {
    vec![spawn_tree(grid, 10, 10), spawn_tree(grid, 50, 50)]
}

#[test]
fn diggable_tile_prefers_below() {
    let mut grid = WorldGrid::new();
    let p = GridPosition { x: 5, y: 5, z: 48 };
    assert_eq!(find_diggable_tile(p, &grid), Some((5, 5, 47)));
    grid.set(5, 5, 47, TileKind::Tunnel);
    assert_eq!(find_diggable_tile(p, &grid), None);
    let q = GridPosition { x: 5, y: 5, z: 47 };
    assert_eq!(find_diggable_tile(q, &grid), Some((5, 5, 46)));
    let edge = GridPosition { x: 0, y: 0, z: 0 };
    assert_eq!(find_diggable_tile(edge, &grid), Some((1, 0, 0)));
}

#[test]
fn nearest_tree_with_leaves() {
    let mut grid = WorldGrid::new();
    let mut trees = two_trees(&mut grid);
    let p = GridPosition { x: 40, y: 40, z: 48 };
    assert_eq!(find_nearest_tree(p, &trees), Some(1));
    trees[1].source.leaves_remaining = 0;
    assert_eq!(find_nearest_tree(p, &trees), Some(0));
    trees[0].source.leaves_remaining = 0;
    assert_eq!(find_nearest_tree(p, &trees), None);
}

#[test]
fn nearest_tree_tie_goes_to_first() {
    let mut grid = WorldGrid::new();
    let trees = vec![spawn_tree(&mut grid, 20, 30), spawn_tree(&mut grid, 40, 30)];
    let p = GridPosition { x: 30, y: 30, z: 48 };
    assert_eq!(find_nearest_tree(p, &trees), Some(0));
}

#[test]
fn forage_target_needs_scent_nearby() {
    let mut grid = WorldGrid::new();
    let trees = two_trees(&mut grid);
    let mut ph = PheromoneGrids::new();
    let p = GridPosition { x: 20, y: 20, z: 48 };
    assert_eq!(find_forage_target(p, &ph, &trees), None);
    ph.set(PheromoneType::Forage, 25, 15, 48, 1000);
    assert_eq!(find_forage_target(p, &ph, &trees), None);
    ph.set(PheromoneType::Forage, 25, 15, 48, 1001);
    assert_eq!(find_forage_target(p, &ph, &trees), Some(0));
    ph.set(PheromoneType::Forage, 25, 15, 48, 0);
    ph.set(PheromoneType::Forage, 26, 20, 48, 5000);
    assert_eq!(find_forage_target(p, &ph, &trees), None);
}

#[test]
fn dig_scent_points_to_best_dirt() {
    let grid = WorldGrid::new();
    let mut ph = PheromoneGrids::new();
    let p = GridPosition { x: 20, y: 20, z: 48 };
    assert_eq!(find_pheromone_dig_target(p, &grid, &ph), None);
    // scent on the surface layer is not over dirt
    ph.set(PheromoneType::Dig, 21, 20, 48, 9000);
    assert_eq!(find_pheromone_dig_target(p, &grid, &ph), None);
    // straight below: score 2000 / (1 + 0) = 2000
    ph.set(PheromoneType::Dig, 20, 20, 47, 2000);
    assert_eq!(find_pheromone_dig_target(p, &grid, &ph), Some((20, 20, 47)));
    // three cells off: 5000 / (1 + 0.6) = 3125 beats it
    ph.set(PheromoneType::Dig, 23, 20, 47, 5000);
    assert_eq!(find_pheromone_dig_target(p, &grid, &ph), Some((23, 20, 47)));
    // too weak once distance counts: 1100 / 1.2 < 1000
    let mut weak = PheromoneGrids::new();
    weak.set(PheromoneType::Dig, 21, 20, 47, 1100);
    assert_eq!(find_pheromone_dig_target(p, &grid, &weak), None);
}

#[test]
fn wander_weights_and_choice() {
    let grid = WorldGrid::new();
    let mut ph = PheromoneGrids::new();
    let p = GridPosition { x: 10, y: 10, z: 48 };
    let (n, s, e, w) = move_weights(&grid, &ph, p);
    assert_eq!((n, s, e, w), (1_000_000_000, 1_000_000_000, 1_000_000_000, 1_000_000_000));
    ph.set(PheromoneType::Dig, 11, 10, 48, 10_000);
    ph.set(PheromoneType::Avoid, 9, 10, 48, 10_000);
    let (_, _, e2, w2) = move_weights(&grid, &ph, p);
    assert_eq!(e2, 6_000_000_000);
    assert_eq!(w2, 100_000_000);
    let corner = GridPosition { x: 0, y: 0, z: 48 };
    let (cn, cs, ce, cw) = move_weights(&grid, &PheromoneGrids::new(), corner);
    assert_eq!((cs, cw), (0, 0));
    assert!(cn > 0 && ce > 0);
    assert_eq!(choose_direction(5, 0, 5, 5, 4), 0);
    assert_eq!(choose_direction(5, 0, 5, 5, 5), 2);
    assert_eq!(choose_direction(5, 0, 5, 5, 14), 3);
}

#[test]
fn wanderer_strengthens_the_trail_it_follows() {
    let grid = WorldGrid::new();
    let mut ph = PheromoneGrids::new();
    ph.set(PheromoneType::Home, 10, 11, 48, 2000);
    let mut p = GridPosition { x: 10, y: 10, z: 48 };
    // north weighs 1 + 2 * 0.2 = 1.4; roll 0 picks it
    try_pheromone_biased_move(&mut p, &grid, &mut ph, 0);
    assert_eq!(p, GridPosition { x: 10, y: 11, z: 48 });
    assert_eq!(ph.get(PheromoneType::Home, 10, 10, 48), 100);
    assert_eq!(ph.get(PheromoneType::Forage, 10, 10, 48), 0);
}

#[test]
fn wanderer_underground_without_room_stays() {
    let grid = WorldGrid::new();
    let mut ph = PheromoneGrids::new();
    let mut p = GridPosition { x: 10, y: 10, z: 20 };
    try_pheromone_biased_move(&mut p, &grid, &mut ph, 0);
    assert_eq!(p, GridPosition { x: 10, y: 10, z: 20 });
}

#[test]
fn idle_gardener_goes_to_garden() {
    let mut grid = WorldGrid::new();
    let trees = two_trees(&mut grid);
    let mut ph = PheromoneGrids::new();
    let nest = NestLocation::default();
    let mut at = ant_at(32, 32, 48, Caste::Gardener, Task::Idle);
    ant_behavior(&mut at, &grid, &mut ph, &trees, 2, nest, no_draws());
    assert_eq!(at.task, Task::Gardening);
    let mut away = ant_at(30, 30, 48, Caste::Gardener, Task::Idle);
    ant_behavior(&mut away, &grid, &mut ph, &trees, 2, nest, no_draws());
    assert_eq!(away.task, Task::CarryingHome { home_x: 32, home_y: 32, home_z: 48 });
}

#[test]
fn idle_choices_by_chance() {
    let mut grid = WorldGrid::new();
    let trees = two_trees(&mut grid);
    let mut ph = PheromoneGrids::new();
    let nest = NestLocation::default();
    let mut f = ant_at(40, 40, 48, Caste::Forager, Task::Idle);
    ant_behavior(&mut f, &grid, &mut ph, &trees, 0, nest, TickDraws { forage: true, ..no_draws() });
    assert_eq!(f.task, Task::Foraging { target_tree: 1 });
    let mut g = ant_at(40, 40, 48, Caste::Gardener, Task::Idle);
    ant_behavior(&mut g, &grid, &mut ph, &trees, 0, nest, TickDraws { garden: true, ..no_draws() });
    assert_eq!(g.task, Task::CarryingHome { home_x: 32, home_y: 32, home_z: 48 });
    let mut s = ant_at(40, 40, 48, Caste::Soldier, Task::Idle);
    ant_behavior(&mut s, &grid, &mut ph, &trees, 0, nest, TickDraws { dig: true, ..no_draws() });
    assert_eq!(s.task, Task::Digging { target_x: 40, target_y: 40, target_z: 47 });
    let mut t = ant_at(40, 40, 48, Caste::Soldier, Task::Idle);
    ant_behavior(&mut t, &grid, &mut ph, &trees, 0, nest, no_draws());
    assert_eq!(t.task, Task::Wandering);
}

#[test]
fn queen_and_loaded_ants_skip_decisions() {
    let mut grid = WorldGrid::new();
    let trees = two_trees(&mut grid);
    let mut ph = PheromoneGrids::new();
    let nest = NestLocation::default();
    let mut q = ant_at(32, 32, 48, Caste::Queen, Task::Idle);
    ant_behavior(&mut q, &grid, &mut ph, &trees, 0, nest, TickDraws { dig: true, ..no_draws() });
    assert_eq!(q.task, Task::Idle);
    let mut l = ant_at(30, 30, 48, Caste::Forager, Task::Idle);
    l.carrying = Carrying::Leaf;
    ant_behavior(&mut l, &grid, &mut ph, &trees, 0, nest, TickDraws { forage: true, ..no_draws() });
    assert_eq!(l.task, Task::Idle);
}

#[test]
fn digger_walks_then_descends() {
    let mut grid = WorldGrid::new();
    let trees = Vec::new();
    let mut ph = PheromoneGrids::new();
    let nest = NestLocation::default();
    let target = Task::Digging { target_x: 13, target_y: 10, target_z: 46 };
    let mut a = ant_at(10, 10, 48, Caste::Soldier, target);
    ant_behavior(&mut a, &grid, &mut ph, &trees, 0, nest, no_draws());
    assert_eq!(a.pos, GridPosition { x: 11, y: 10, z: 48 });
    let mut b = ant_at(13, 10, 48, Caste::Soldier, target);
    ant_behavior(&mut b, &grid, &mut ph, &trees, 0, nest, no_draws());
    assert_eq!(b.pos, GridPosition { x: 13, y: 10, z: 48 });
    grid.set(13, 10, 47, TileKind::Tunnel);
    ant_behavior(&mut b, &grid, &mut ph, &trees, 0, nest, no_draws());
    assert_eq!(b.pos, GridPosition { x: 13, y: 10, z: 47 });
}

#[test]
fn wanderer_rests_when_drawn() {
    let grid = WorldGrid::new();
    let trees = Vec::new();
    let mut ph = PheromoneGrids::new();
    let nest = NestLocation::default();
    let mut a = ant_at(10, 10, 48, Caste::Forager, Task::Wandering);
    ant_behavior(&mut a, &grid, &mut ph, &trees, 0, nest, TickDraws { rest: true, roll: 2_500_000_000, ..no_draws() });
    assert_eq!(a.task, Task::Idle);
    assert_eq!(a.pos, GridPosition { x: 11, y: 10, z: 48 });
}
