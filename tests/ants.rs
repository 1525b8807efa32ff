use acre::ants::{Ant, Carrying, Caste, GridPosition, Hunger, NestLocation, Task, HUNGER_MAX};
use acre::pheromones::{PheromoneGrids, PheromoneType};
use acre::tasks::{
    ant_carrying, ant_digging, ant_feeding, ant_foraging, ant_gardening, ant_hunger,
    ant_starvation,
};
use acre::world::{spawn_tree, FungusGarden, TileKind, WorldGrid};
use acre::SURFACE_LEVEL;

fn nest() -> NestLocation {
    NestLocation::default()
}

fn ant_at(x: usize, y: usize, z: usize, caste: Caste, task: Task) -> Ant {
    let mut a = Ant::new(x, y, z, caste);
    a.task = task;
    a
}

#[test]
fn nest_is_at_surface_centre() {
    assert_eq!(nest(), NestLocation { x: 32, y: 32, z: 48 });
}

#[test]
fn hunger_just_below_threshold_sends_ant_to_eat() {
    let mut a = ant_at(10, 10, 48, Caste::Forager, Task::Wandering);
    a.hunger.current = 49_999;
    ant_hunger(&mut a);
    assert_eq!(a.hunger.current, 50_149);
    assert_eq!(a.task, Task::SeekingFood);
}

#[test]
fn hunger_does_not_interrupt_carrying_home() {
    let home = Task::CarryingHome { home_x: 32, home_y: 32, home_z: 48 };
    let mut a = ant_at(10, 10, 48, Caste::Forager, home);
    a.hunger.current = 49_900;
    ant_hunger(&mut a);
    assert_eq!(a.task, home);
    let mut b = ant_at(10, 10, 48, Caste::Gardener, Task::SeekingFood);
    b.hunger.current = 49_900;
    ant_hunger(&mut b);
    assert_eq!(b.task, Task::SeekingFood);
}

#[test]
fn queen_hungers_at_half_rate() {
    let mut q = ant_at(32, 32, 48, Caste::Queen, Task::Idle);
    ant_hunger(&mut q);
    assert_eq!(q.hunger.current, 75);
    let mut w = ant_at(32, 32, 48, Caste::Soldier, Task::Idle);
    ant_hunger(&mut w);
    assert_eq!(w.hunger.current, 150);
    assert_eq!(w.task, Task::Idle);
}

#[test]
fn starved_ants_are_removed_whatever_their_task() {
    let mut starving = ant_at(1, 1, 48, Caste::Forager, Task::CarryingHome { home_x: 32, home_y: 32, home_z: 48 });
    starving.hunger = Hunger { current: HUNGER_MAX, max: HUNGER_MAX };
    let mut fine = ant_at(2, 2, 48, Caste::Gardener, Task::Gardening);
    fine.hunger.current = HUNGER_MAX - 1;
    let mut also_starving = ant_at(3, 3, 48, Caste::Queen, Task::Idle);
    also_starving.hunger.current = HUNGER_MAX + 5;
    let mut ants = vec![starving, fine, also_starving];
    ant_starvation(&mut ants);
    assert_eq!(ants, vec![fine]);
}

#[test]
fn harvesting_last_leaf() {
    let mut grid = WorldGrid::new();
    let mut tree = spawn_tree(&mut grid, 10, 10);
    tree.source.leaves_remaining = 1;
    let mut trees = vec![tree];
    let mut ph = PheromoneGrids::new();
    let mut a = ant_at(11, 10, SURFACE_LEVEL, Caste::Forager, Task::Foraging { target_tree: 0 });
    ant_foraging(&mut a, &mut trees, &grid, nest(), &mut ph);
    assert_eq!(trees[0].source.leaves_remaining, 0);
    assert_eq!(a.carrying, Carrying::Leaf);
    assert_eq!(a.task, Task::CarryingHome { home_x: 32, home_y: 32, home_z: 48 });
    assert_eq!(ph.get(PheromoneType::Forage, 11, 10, SURFACE_LEVEL), 3000);
    assert_eq!(a.pos, GridPosition { x: 11, y: 10, z: SURFACE_LEVEL });
}

#[test]
fn foraging_a_bare_or_missing_tree_turns_idle() {
    let mut grid = WorldGrid::new();
    let mut tree = spawn_tree(&mut grid, 10, 10);
    tree.source.leaves_remaining = 0;
    let mut trees = vec![tree];
    let mut ph = PheromoneGrids::new();
    let mut a = ant_at(11, 10, SURFACE_LEVEL, Caste::Forager, Task::Foraging { target_tree: 0 });
    ant_foraging(&mut a, &mut trees, &grid, nest(), &mut ph);
    assert_eq!(a.task, Task::Idle);
    let mut b = ant_at(11, 10, SURFACE_LEVEL, Caste::Forager, Task::Foraging { target_tree: 4 });
    ant_foraging(&mut b, &mut trees, &grid, nest(), &mut ph);
    assert_eq!(b.task, Task::Idle);
}

#[test]
fn forager_walks_toward_tree_and_climbs_to_surface() {
    let mut grid = WorldGrid::new();
    let tree = spawn_tree(&mut grid, 10, 10);
    let mut trees = vec![tree];
    let mut ph = PheromoneGrids::new();
    let mut a = ant_at(20, 14, SURFACE_LEVEL, Caste::Forager, Task::Foraging { target_tree: 0 });
    ant_foraging(&mut a, &mut trees, &grid, nest(), &mut ph);
    assert_eq!(a.pos, GridPosition { x: 19, y: 13, z: SURFACE_LEVEL });
    assert_eq!(trees[0].source.leaves_remaining, 20);
    grid.set(20, 14, SURFACE_LEVEL - 1, TileKind::Tunnel);
    grid.set(20, 14, SURFACE_LEVEL, TileKind::Tunnel);
    let mut b = ant_at(20, 14, SURFACE_LEVEL - 1, Caste::Forager, Task::Foraging { target_tree: 0 });
    ant_foraging(&mut b, &mut trees, &grid, nest(), &mut ph);
    assert_eq!(b.pos, GridPosition { x: 20, y: 14, z: SURFACE_LEVEL });
}

#[test]
fn delivering_a_leaf_at_the_nest() {
    let grid = WorldGrid::new();
    let mut garden = FungusGarden::default();
    let mut ph = PheromoneGrids::new();
    let mut a = ant_at(32, 32, 48, Caste::Forager, Task::CarryingHome { home_x: 32, home_y: 32, home_z: 48 });
    a.carrying = Carrying::Leaf;
    ant_carrying(&mut a, &grid, &mut garden, &mut ph);
    assert_eq!(garden.leaves, 1);
    assert_eq!(garden.food, 10);
    assert_eq!(a.carrying, Carrying::Nothing);
    assert_eq!(a.task, Task::Idle);
}

#[test]
fn carrying_lays_home_scent_and_steps() {
    let grid = WorldGrid::new();
    let mut garden = FungusGarden::default();
    let mut ph = PheromoneGrids::new();
    let mut a = ant_at(30, 35, 48, Caste::Forager, Task::CarryingHome { home_x: 32, home_y: 32, home_z: 48 });
    a.carrying = Carrying::Leaf;
    ant_carrying(&mut a, &grid, &mut garden, &mut ph);
    assert_eq!(ph.get(PheromoneType::Home, 30, 35, 48), 500);
    assert_eq!(a.pos, GridPosition { x: 31, y: 34, z: 48 });
    assert_eq!(garden.leaves, 0);
}

#[test]
fn digging_outcomes() {
    let mut grid = WorldGrid::new();
    let before = grid.tiles.clone();
    let far = Task::Digging { target_x: 20, target_y: 20, target_z: 40 };
    let mut a = ant_at(10, 10, 48, Caste::Soldier, far);
    ant_digging(&mut a, &mut grid);
    assert_eq!(grid.tiles, before);
    assert_eq!(a.task, far);

    let below = Task::Digging { target_x: 10, target_y: 10, target_z: 47 };
    let mut b = ant_at(10, 10, 48, Caste::Soldier, below);
    ant_digging(&mut b, &mut grid);
    assert_eq!(b.task, Task::Idle);
    assert_eq!(grid.get(10, 10, 47), TileKind::Tunnel);
    let changed = grid.tiles.iter().zip(before.iter()).filter(|(n, o)| n != o).count();
    assert_eq!(changed, 1);

    let after_first = grid.tiles.clone();
    let mut c = ant_at(11, 10, 48, Caste::Soldier, below);
    ant_digging(&mut c, &mut grid);
    assert_eq!(c.task, Task::Idle);
    assert_eq!(grid.tiles, after_first);
}

#[test]
fn gardener_processes_until_leaves_run_out() {
    let mut garden = FungusGarden { leaves: 2, mulch: 0, food: 10, growth_progress: 0 };
    let mut g = ant_at(32, 32, 48, Caste::Gardener, Task::Gardening);
    ant_gardening(&mut g, &mut garden, nest());
    assert_eq!(garden.leaves, 1);
    assert_eq!(g.task, Task::Gardening);
    ant_gardening(&mut g, &mut garden, nest());
    assert_eq!(garden.leaves, 0);
    assert_eq!(garden.mulch, 2);
    assert_eq!(g.task, Task::Idle);
    let mut away = ant_at(30, 32, 48, Caste::Gardener, Task::Gardening);
    garden.leaves = 4;
    ant_gardening(&mut away, &mut garden, nest());
    assert_eq!(away.task, Task::Idle);
    assert_eq!(garden.leaves, 4);
}

#[test]
fn feeding_at_the_nest() {
    let grid = WorldGrid::new();
    let mut garden = FungusGarden { leaves: 0, mulch: 0, food: 1, growth_progress: 0 };
    let mut a = ant_at(32, 32, 48, Caste::Forager, Task::SeekingFood);
    a.hunger.current = 60_000;
    ant_feeding(&mut a, &mut garden, nest(), &grid);
    assert_eq!(a.hunger.current, 0);
    assert_eq!(a.task, Task::Idle);
    assert_eq!(garden.food, 0);
    let mut b = ant_at(32, 32, 48, Caste::Forager, Task::SeekingFood);
    b.hunger.current = 60_000;
    ant_feeding(&mut b, &mut garden, nest(), &grid);
    assert_eq!(b.hunger.current, 60_000);
    assert_eq!(b.task, Task::SeekingFood);
    let mut c = ant_at(35, 32, 48, Caste::Forager, Task::SeekingFood);
    ant_feeding(&mut c, &mut garden, nest(), &grid);
    assert_eq!(c.pos, GridPosition { x: 34, y: 32, z: 48 });
}
