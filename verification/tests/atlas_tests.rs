use sintet::atlas::{
    AtlasIds, AtlasType,
    calculate_min_square_size, get_index, ConnectedObject, DirectionState, EntityDirectionState,
    EntityEightDirectionState, ObjectDirectionState, SpriteIds,
};

#[test]
fn four_way_index() {
    assert_eq!(EntityDirectionState::South.dir_index(), 0);
    assert_eq!(EntityDirectionState::West.dir_index(), 3);
    assert_eq!(EntityDirectionState::calculate_index(2, EntityDirectionState::West.dir_index()), 11);
    assert_eq!(EntityDirectionState::default(), EntityDirectionState::South);
}

#[test]
fn eight_way_index() {
    assert_eq!(EntityEightDirectionState::Center.dir_index(), 4);
    assert_eq!(EntityEightDirectionState::default().dir_index(), 7);
    assert_eq!(EntityEightDirectionState::calculate_index(9, 1, 4), 13);
    assert_eq!(EntityEightDirectionState::calculate_index(9, 0, 0), 0);
    assert_eq!(EntityEightDirectionState::calculate_index(9, 4, 8), 50);
    assert_eq!(EntityEightDirectionState::calculate_index(3, 0, 8), 8);
}

#[test]
fn connected_index() {
    assert_eq!(ConnectedObject::Lone.dir_index(), 1);
    assert_eq!(ConnectedObject::EastWestSouth.dir_index(), 15);
    assert_eq!(ConnectedObject::calculate_index(16, 5, 6), 86);
    assert_eq!(ConnectedObject::calculate_index(4, 0, 15), 15);
}

#[test]
fn min_square_size() {
    let expected = [(0, 0), (1, 1), (2, 2), (4, 2), (5, 3), (9, 3), (10, 4), (16, 4), (17, 5), (100, 10)];
    for (n, r) in expected {
        assert_eq!(calculate_min_square_size(n), r, "n = {}", n);
        assert_eq!((n as f64).sqrt().ceil() as usize, r);
    }
}

#[test]
fn sprite_ids_lookup() {
    let mut ids = SpriteIds::new();
    ids.insert("mob".to_string(), 3);
    ids.insert("bullet".to_string(), 7);
    ids.insert("mob".to_string(), 4);
    assert_eq!(ids.get("mob"), Some(4));
    assert_eq!(ids.get("gun"), None);
    let table = Some(ids);
    assert_eq!(get_index("bullet", &table), 7);
    assert_eq!(get_index("gun", &table), 0);
    assert_eq!(get_index("bullet", &None), 0);
}

#[test]
fn plain_direction_defaults() {
    assert_eq!(ObjectDirectionState::default(), ObjectDirectionState::South);
    assert_eq!(DirectionState::default(), DirectionState::Still);
}

#[test]
fn head_turning() {
    assert!(EntityDirectionState::head_may_turn(EntityDirectionState::South, EntityDirectionState::South));
    assert!(!EntityDirectionState::head_may_turn(EntityDirectionState::North, EntityDirectionState::South));
    assert!(!EntityDirectionState::head_may_turn(EntityDirectionState::South, EntityDirectionState::North));
    assert!(!EntityDirectionState::head_may_turn(EntityDirectionState::West, EntityDirectionState::East));
    assert!(!EntityDirectionState::head_may_turn(EntityDirectionState::East, EntityDirectionState::West));
    assert!(EntityDirectionState::head_may_turn(EntityDirectionState::East, EntityDirectionState::North));
}

#[test]
fn atlas_tables() {
    let mut atlases = AtlasIds::init();
    assert_eq!(atlases.index_of(AtlasType::Items, "wood"), None);
    let mut items = SpriteIds::new();
    items.insert("wood".to_string(), 2);
    atlases.items = Some(items);
    assert_eq!(atlases.index_of(AtlasType::Items, "wood"), Some(2));
    assert_eq!(atlases.index_of(AtlasType::Items, "stone"), None);
    assert_eq!(atlases.index_of(AtlasType::Ui, "wood"), None);
    assert!(atlases.table(AtlasType::Terrain).is_none());
}
