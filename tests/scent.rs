use acre::pheromones::{PheromoneGrids, PheromoneType, SelectedPheromoneType, SCENT_ONE};

#[test]
fn fresh_fields_are_empty() {
    let ph = PheromoneGrids::new();
    assert_eq!(ph.get(PheromoneType::Dig, 0, 0, 0), 0);
    assert_eq!(ph.get(PheromoneType::Avoid, 63, 63, 63), 0);
}

#[test]
fn set_clamps_to_unit_range() {
    let mut ph = PheromoneGrids::new();
    ph.set(PheromoneType::Home, 1, 2, 3, 25_000);
    assert_eq!(ph.get(PheromoneType::Home, 1, 2, 3), SCENT_ONE);
    ph.set(PheromoneType::Home, 1, 2, 3, -40);
    assert_eq!(ph.get(PheromoneType::Home, 1, 2, 3), 0);
    ph.set(PheromoneType::Home, 1, 2, 3, 4321);
    assert_eq!(ph.get(PheromoneType::Home, 1, 2, 3), 4321);
    assert_eq!(ph.get(PheromoneType::Forage, 1, 2, 3), 0);
}

#[test]
fn add_accumulates_and_saturates() {
    let mut ph = PheromoneGrids::new();
    ph.add(PheromoneType::Forage, 5, 5, 5, 3000);
    ph.add(PheromoneType::Forage, 5, 5, 5, 3000);
    assert_eq!(ph.get(PheromoneType::Forage, 5, 5, 5), 6000);
    ph.add(PheromoneType::Forage, 5, 5, 5, 9000);
    assert_eq!(ph.get(PheromoneType::Forage, 5, 5, 5), SCENT_ONE);
    ph.add(PheromoneType::Forage, 5, 5, 5, -20_000);
    assert_eq!(ph.get(PheromoneType::Forage, 5, 5, 5), 0);
}

#[test]
fn decay_floors_at_zero() {
    let mut ph = PheromoneGrids::new();
    ph.set(PheromoneType::Dig, 0, 0, 0, 12);
    ph.set(PheromoneType::Avoid, 9, 9, 9, 3);
    ph.decay_all(5);
    assert_eq!(ph.get(PheromoneType::Dig, 0, 0, 0), 7);
    assert_eq!(ph.get(PheromoneType::Avoid, 9, 9, 9), 0);
    ph.decay_all(5);
    ph.decay_all(5);
    assert_eq!(ph.get(PheromoneType::Dig, 0, 0, 0), 0);
    assert_eq!(ph.get(PheromoneType::Avoid, 9, 9, 9), 0);
}

#[test]
fn deposit_off_the_world_is_ignored() {
    let mut ph = PheromoneGrids::new();
    ph.deposit(PheromoneType::Dig, -1, 0, 0, 1000);
    ph.deposit(PheromoneType::Dig, 0, 64, 0, 1000);
    ph.deposit(PheromoneType::Dig, 3, 4, 5, 1000);
    assert_eq!(ph.get(PheromoneType::Dig, 0, 0, 0), 0);
    assert_eq!(ph.get(PheromoneType::Dig, 0, 63, 0), 0);
    assert_eq!(ph.get(PheromoneType::Dig, 3, 4, 5), 1000);
}

#[test]
fn strongest_scent_wins() {
    let mut ph = PheromoneGrids::new();
    ph.set(PheromoneType::Dig, 2, 2, 2, 100);
    ph.set(PheromoneType::Home, 2, 2, 2, 700);
    ph.set(PheromoneType::Avoid, 2, 2, 2, 300);
    assert_eq!(ph.strongest(2, 2, 2), 700);
}

#[test]
fn scent_names_and_cycle() {
    assert_eq!(PheromoneType::Dig.name(), "Dig");
    assert_eq!(PheromoneType::Forage.name(), "Forage");
    assert_eq!(PheromoneType::Home.name(), "Home");
    assert_eq!(PheromoneType::Avoid.name(), "Avoid");
    let mut sel = SelectedPheromoneType(PheromoneType::default());
    sel.cycle();
    assert_eq!(sel.0, PheromoneType::Forage);
    sel.cycle();
    sel.cycle();
    assert_eq!(sel.0, PheromoneType::Avoid);
    sel.cycle();
    assert_eq!(sel.0, PheromoneType::Dig);
}
