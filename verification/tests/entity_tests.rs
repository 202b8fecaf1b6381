use sintet::entity::{
    pick_spawn_edge, spawn_edge_from, EntityGender, EntityNeutrality, EntityState, Pickupable, PlantType, SpawnEdge,
    WorldObject,
};
use sintet::item::{ItemType, Tool};

#[test]
fn spawn_edges() {
    assert_eq!(spawn_edge_from(1, 1), SpawnEdge::Right);
    assert_eq!(spawn_edge_from(1, 0), SpawnEdge::Left);
    assert_eq!(spawn_edge_from(0, 1), SpawnEdge::Top);
    assert_eq!(spawn_edge_from(0, 0), SpawnEdge::Bottom);
    let mut seen = [false; 4];
    for _ in 0..400 {
        let i = match pick_spawn_edge() {
            SpawnEdge::Right => 0,
            SpawnEdge::Left => 1,
            SpawnEdge::Top => 2,
            SpawnEdge::Bottom => 3,
        };
        seen[i] = true;
    }
    assert!(seen.iter().all(|s| *s));
}

#[test]
fn world_objects() {
    let item = WorldObject::Item(ItemType::Tool(Tool::Axe));
    assert_eq!(item.as_pickup(), Some(Pickupable { item: ItemType::Tool(Tool::Axe) }));
    assert_eq!(WorldObject::Plant(PlantType::Tree).as_pickup(), None);
    assert_eq!(item.grows_into(), None);
    assert_eq!(item.as_harvest(), None);
    assert_eq!(WorldObject::default(), WorldObject::Item(ItemType::Empty));
    assert_eq!(EntityNeutrality::default(), EntityNeutrality::Neutral);
    assert_eq!(EntityGender::default(), EntityGender::Unspecified);
    assert_eq!(EntityState::default(), EntityState::Idle);
}
