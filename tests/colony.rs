use acre::ants::{Ant, Carrying, Caste, GridPosition, NestLocation, Task};
use acre::pheromones::{PheromoneGrids, PheromoneType};
use acre::sim::{plant_trees, Simulation};
use acre::tasks::{ant_carrying, ant_gardening};
use acre::time_controls::{GameState, SimulationSpeed};
use acre::world::{spawn_tree, z_level_label, CurrentZLevel, FungusGarden, TileKind, WorldGrid};

#[test]
fn fresh_world_layers() {
    let grid = WorldGrid::new();
    assert_eq!(grid.get(0, 0, 0), TileKind::Dirt);
    assert_eq!(grid.get(63, 63, 47), TileKind::Dirt);
    assert_eq!(grid.get(5, 9, 48), TileKind::Surface);
    assert_eq!(grid.get(5, 9, 49), TileKind::Air);
    assert_eq!(grid.get(63, 63, 63), TileKind::Air);
}

#[test]
fn dig_only_turns_dirt_into_tunnel() {
    let mut grid = WorldGrid::new();
    assert!(grid.dig(3, 3, 10));
    assert_eq!(grid.get(3, 3, 10), TileKind::Tunnel);
    assert!(!grid.dig(3, 3, 10));
    assert!(!grid.dig(3, 3, 48));
    assert_eq!(grid.get(3, 3, 48), TileKind::Surface);
}

#[test]
fn tree_shape() {
    let mut grid = WorldGrid::new();
    let t = spawn_tree(&mut grid, 0, 10);
    assert_eq!((t.tree.x, t.tree.y, t.canopy.z), (0, 10, 53));
    assert_eq!(t.source.leaves_remaining, 20);
    for z in 49..52 {
        assert_eq!(grid.get(0, 10, z), TileKind::TreeTrunk);
    }
    assert_eq!(grid.get(0, 10, 52), TileKind::TreeCanopy);
    assert_eq!(grid.get(1, 11, 53), TileKind::TreeCanopy);
    assert_eq!(grid.get(1, 10, 52), TileKind::Air);
    assert_eq!(grid.get(2, 10, 53), TileKind::Air);
    assert_eq!(grid.get(0, 10, 54), TileKind::TreeCanopy);
    assert_eq!(grid.get(0, 10, 48), TileKind::Surface);
}

#[test]
fn trees_keep_clear_of_the_middle() {
    let mut grid = WorldGrid::new();
    let trees = plant_trees(&mut grid, &vec![(30, 30), (10, 50), (39, 39), (40, 24)]);
    let spots: Vec<(usize, usize)> = trees.iter().map(|t| (t.tree.x, t.tree.y)).collect();
    assert_eq!(spots, vec![(10, 50), (40, 24)]);
}

#[test]
fn seeded_worlds_repeat() {
    let a = Simulation::new(7);
    let b = Simulation::new(7);
    assert!(a.trees.len() <= 8);
    assert_eq!(a.trees, b.trees);
    for t in a.trees.iter() {
        assert!((5..59).contains(&t.tree.x) && (5..59).contains(&t.tree.y));
        assert!(!((t.tree.x as i64 - 32).abs() < 8 && (t.tree.y as i64 - 32).abs() < 8));
        assert_eq!(a.grid.get(t.tree.x, t.tree.y, 49), TileKind::TreeTrunk);
    }
    let spread: usize = (0..20u64).map(|s| Simulation::new(s).trees.len()).sum();
    assert!(spread > 0);
}

#[test]
fn tree_spots_vary_with_the_seed() {
    let mut spots = std::collections::BTreeSet::new();
    for seed in 0..10u64 {
        for t in Simulation::new(seed).trees.iter() {
            spots.insert((t.tree.x, t.tree.y));
        }
    }
    assert!(spots.len() > 5);
}

#[test]
fn founding_colony() {
    let mut sim = Simulation::new(1);
    sim.spawn_founding_colony();
    let counts = sim.caste_counts();
    assert_eq!((counts.queens, counts.foragers, counts.gardeners, counts.soldiers), (1, 3, 2, 0));
    assert_eq!(sim.ants[0].pos, GridPosition { x: 32, y: 32, z: 48 });
    assert_eq!(sim.ants[3].pos, GridPosition { x: 35, y: 32, z: 48 });
    assert_eq!(sim.ants[5].pos, GridPosition { x: 30, y: 32, z: 48 });
    assert!(sim.debug_spawn_ant());
    assert_eq!(sim.ants.len(), 7);
    assert_eq!(sim.ants[6].caste, Caste::Forager);
    assert_eq!(sim.ants[6].pos, sim.ants[0].pos);
}

#[test]
fn debug_spawn_needs_an_ant() {
    let mut sim = Simulation::new(2);
    assert!(!sim.debug_spawn_ant());
    assert!(sim.ants.is_empty());
}

#[test]
fn ticks_run_the_colony() {
    let mut sim = Simulation::new(3);
    sim.spawn_founding_colony();
    sim.place_pheromone(PheromoneType::Dig, 33, 33, 47, );
    assert_eq!(sim.pheromones.get(PheromoneType::Dig, 33, 33, 47), 1000);
    sim.place_pheromone(PheromoneType::Dig, 70, 33, 47);
    for _ in 0..10 {
        sim.tick();
    }
    assert_eq!(sim.ants.len(), 6);
    assert_eq!(sim.nest, NestLocation::default());
    let queen = sim.ants[0];
    assert_eq!(queen.caste, Caste::Queen);
    assert_eq!(queen.pos, GridPosition { x: 32, y: 32, z: 48 });
    assert_eq!(queen.hunger.current, 750);
    assert_eq!(sim.ants[1].hunger.current, 1500);
    // ten ticks of decay
    assert!(sim.pheromones.get(PheromoneType::Dig, 33, 33, 47) >= 950);
}

#[test]
fn same_seed_same_trajectory() {
    let mut a = Simulation::new(11);
    let mut b = Simulation::new(11);
    a.spawn_founding_colony();
    b.spawn_founding_colony();
    for _ in 0..30 {
        a.tick();
        b.tick();
    }
    assert_eq!(a.ants, b.ants);
    assert_eq!(a.garden, b.garden);
}

#[test]
fn colony_starves_without_food() {
    let mut sim = Simulation::new(5);
    sim.spawn_ant(10, 10, 48, Caste::Soldier);
    sim.garden.food = 0;
    let mut ticks = 0;
    while !sim.ants.is_empty() && ticks < 1000 {
        sim.tick();
        ticks += 1;
    }
    assert!(sim.ants.is_empty());
    // 100 / 0.15 rounds up to 667 ticks
    assert_eq!(ticks, 667);
}

#[test]
fn leaves_become_food() {
    let grid = WorldGrid::new();
    let nest = NestLocation::default();
    let mut ph = PheromoneGrids::new();
    let mut garden = FungusGarden::default();
    let home = Task::CarryingHome { home_x: 32, home_y: 32, home_z: 48 };
    for _ in 0..3 {
        let mut carrier = Ant::new(32, 32, 48, Caste::Forager);
        carrier.task = home;
        carrier.carrying = Carrying::Leaf;
        ant_carrying(&mut carrier, &grid, &mut garden, &mut ph);
    }
    assert_eq!(garden.leaves, 3);
    let mut gardener = Ant::new(32, 32, 48, Caste::Gardener);
    gardener.task = Task::Gardening;
    while gardener.task == Task::Gardening {
        ant_gardening(&mut gardener, &mut garden, nest);
    }
    assert_eq!((garden.leaves, garden.mulch, garden.food), (0, 3, 10));
    let mut ticks = 0;
    while garden.food < 11 {
        garden.grow();
        ticks += 1;
    }
    assert_eq!(ticks, 116);
    assert_eq!((garden.food, garden.mulch), (11, 2));
}

#[test]
fn viewer_controls() {
    let mut z = CurrentZLevel::default();
    assert_eq!(z.0, 48);
    assert_eq!(z_level_label(z.0), "(surface)");
    z.go_up();
    assert_eq!(z_level_label(z.0), "(above ground)");
    z.0 = 63;
    z.go_up();
    assert_eq!(z.0, 63);
    z.0 = 0;
    z.go_down();
    assert_eq!(z.0, 0);
    assert_eq!(z_level_label(z.0), "(underground)");
    assert_eq!(GameState::default().toggled(), GameState::Paused);
    assert_eq!(GameState::Paused.toggled(), GameState::Running);
    let mut speed = SimulationSpeed::default();
    assert_eq!(speed.ticks_per_kilosecond(), 10_000);
    assert!(speed.change_speed(true, false));
    assert_eq!(speed.ticks_per_kilosecond(), 7_500);
    assert!(!speed.change_speed(true, true));
    speed.quarters = 1;
    assert!(!speed.change_speed(true, false));
    speed.quarters = 16;
    assert!(!speed.change_speed(false, true));
    assert_eq!(speed.ticks_per_kilosecond(), 40_000);
}
