use world_server::cell::{Cell, CellType, PLANT_MATURE_TICKS};

#[test]
fn plant_matures_after_exactly_fifty_ticks() {
    let mut cell = Cell::no_walls(7);
    cell.change_type(CellType::Plant);
    assert_eq!(cell.lifetime, 0);
    for tick in 1..PLANT_MATURE_TICKS {
        let changed = cell.update();
        assert!(!changed);
        assert_eq!(cell.cell_type, CellType::Plant);
        assert_eq!(cell.lifetime, tick);
    }
    let changed = cell.update();
    assert!(changed);
    assert_eq!(cell.cell_type, CellType::Flower);
    assert_eq!(cell.lifetime, 0);
}

#[test]
fn soil_and_flower_do_not_age() {
    let mut soil = Cell::no_walls(0);
    assert!(!soil.update());
    assert_eq!(soil.cell_type, CellType::Soil);
    assert_eq!(soil.lifetime, 0);

    let mut flower = Cell::no_walls(1);
    flower.change_type(CellType::Flower);
    assert!(!flower.update());
    assert_eq!(flower.cell_type, CellType::Flower);
    assert_eq!(flower.lifetime, 0);
}

#[test]
fn change_type_resets_lifetime() {
    let mut cell = Cell::no_walls(3);
    cell.change_type(CellType::Plant);
    for _ in 0..10 {
        cell.update();
    }
    assert_eq!(cell.lifetime, 10);
    cell.change_type(CellType::Soil);
    assert_eq!(cell.lifetime, 0);
    assert_eq!(cell.cell_type, CellType::Soil);
}

#[test]
fn clone_with_new_lifetime_changes_only_the_counter() {
    let mut cell = Cell::no_walls(9);
    cell.change_type(CellType::Plant);
    let copy = cell.clone_with_new_lifetime(17);
    assert_eq!(copy.index, 9);
    assert_eq!(copy.cell_type, CellType::Plant);
    assert_eq!(copy.lifetime, 17);
    assert_eq!(cell.lifetime, 0);
}

#[test]
fn soil_round_trips_through_plant_and_flower() {
    let original = Cell::no_walls(5);
    let mut cell = original;
    // interact: Soil -> Plant
    cell.change_type(CellType::Plant);
    // ripen on its own
    for _ in 0..PLANT_MATURE_TICKS {
        cell.update();
    }
    assert_eq!(cell.cell_type, CellType::Flower);
    // interact: Flower -> Soil
    cell.change_type(CellType::Soil);
    assert_eq!(cell, original);
}
