use acre::arith::integer_sqrt;
use acre::world::FungusGarden;

fn garden(leaves: u32, mulch: u32, food: u32, growth_progress: u32) -> FungusGarden {
    FungusGarden { leaves, mulch, food, growth_progress }
}

#[test]
fn integer_sqrt_exact_values() {
    assert_eq!(integer_sqrt(0), 0);
    assert_eq!(integer_sqrt(1), 1);
    assert_eq!(integer_sqrt(15), 3);
    assert_eq!(integer_sqrt(16), 4);
    assert_eq!(integer_sqrt(75_000_000), 8660);
    assert_eq!(integer_sqrt(u64::MAX), 4_294_967_295);
}

#[test]
fn process_leaf_without_leaves_changes_nothing() {
    let mut g = garden(0, 4, 7, 123);
    assert!(!g.process_leaf());
    assert_eq!(g, garden(0, 4, 7, 123));
}

#[test]
fn process_leaf_moves_one_leaf_to_mulch() {
    let mut g = garden(5, 2, 7, 0);
    assert!(g.process_leaf());
    assert_eq!(g, garden(4, 3, 7, 0));
}

#[test]
fn consume_food_takes_one_unit() {
    let mut g = garden(0, 0, 2, 0);
    assert!(g.consume_food());
    assert!(g.consume_food());
    assert!(!g.consume_food());
    assert_eq!(g.food, 0);
}

#[test]
fn add_leaf_counts_up() {
    let mut g = FungusGarden::default();
    g.add_leaf();
    g.add_leaf();
    assert_eq!(g, garden(2, 0, 10, 0));
}

#[test]
fn grow_without_mulch_never_changes() {
    let mut g = garden(3, 0, 10, 400_000);
    for _ in 0..1000 {
        g.grow();
    }
    assert_eq!(g, garden(3, 0, 10, 400_000));
}

#[test]
fn grow_rate_follows_square_root_of_mulch() {
    let mut g = garden(0, 4, 0, 0);
    g.grow();
    // 0.005 * sqrt(4) = 0.01
    assert_eq!(g.growth_progress, 10_000);
    let mut h = garden(0, 3, 0, 0);
    h.grow();
    assert_eq!(h.growth_progress, 8660);
}

#[test]
fn grow_crossing_one_unit_makes_food_and_uses_mulch() {
    let mut g = garden(0, 1, 5, 996_000);
    g.grow();
    // 996_000 + 5_000 crosses one unit
    assert_eq!(g, garden(0, 0, 6, 1_000));
}

#[test]
fn garden_production_chain() {
    let mut g = FungusGarden::default();
    assert_eq!(g, garden(0, 0, 10, 0));
    for _ in 0..3 {
        g.add_leaf();
    }
    assert_eq!(g.leaves, 3);
    while g.process_leaf() {}
    assert_eq!(g, garden(0, 3, 10, 0));
    let mut ticks = 0;
    while g.food == 10 {
        g.grow();
        ticks += 1;
    }
    // 1 / (0.005 * sqrt(3)) is about 115.5 ticks
    assert_eq!(ticks, 116);
    assert_eq!(g.food, 11);
    assert_eq!(g.mulch, 2);
    assert_eq!(g.leaves, 0);
}
