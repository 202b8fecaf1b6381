use sintet::item::{Ammo, Item, ItemAndCount, ItemEntity, ItemSizeType, ItemStackType, ItemType, Material, Tool, Weapon};

#[test]
fn item_type_names() {
    assert_eq!(ItemType::Tool(Tool::Axe).name(), "Axe");
    assert_eq!(ItemType::Tool(Tool::Pickaxe).name(), "Pickaxe");
    assert_eq!(ItemType::Empty.name(), "None");
    assert_eq!(ItemType::Weapon(Weapon::Gun).name(), "Weapon(Gun)");
    assert_eq!(ItemType::Item(Item::Material(Material::Cobblestone)).name(), "Item(Material(Cobblestone))");
    assert_eq!(ItemType::Item(Item::Ammo).name(), "Item(Ammo)");
    assert_eq!(ItemType::Tool(Tool::Hoe).debug_text(), "Tool(Hoe)");
}

#[test]
fn item_and_count_text() {
    let ic = ItemAndCount { item: ItemType::Tool(Tool::Shovel), count: 12 };
    assert_eq!(ic.to_string(), "12x Tool(Shovel)");
    let zero = ItemAndCount { item: ItemType::Empty, count: 0 };
    assert_eq!(zero.to_string(), "0x None");
    let big = ItemAndCount { item: ItemType::Item(Item::Consumables), count: usize::MAX };
    assert_eq!(big.to_string(), format!("{}x Item(Consumables)", usize::MAX));
}

#[test]
fn defaults() {
    assert_eq!(ItemType::default(), ItemType::Empty);
    assert_eq!(ItemSizeType::default(), ItemSizeType::Small);
    let e = ItemEntity::default();
    assert_eq!(e.count, 0);
    assert!(e.name.is_empty());
    assert!(!e.check_stackable());
    let _ = Ammo::Rocket;
}

fn world_item(count: usize, stack_size: Option<usize>, stackable: Option<ItemStackType>) -> ItemEntity {
    ItemEntity {
        name: "wood".to_string(),
        id_name: "wood".to_string(),
        id_source: None,
        item_type: ItemType::Item(Item::Material(Material::Wood)),
        durability: None,
        stack_size,
        stackable,
        count,
    }
}

#[test]
fn merge_spawned_caps_at_stack_size() {
    let mut a = world_item(8, Some(10), Some(ItemStackType::Stackable));
    a.merge_spawned(5);
    assert_eq!(a.count, 10);
    let mut b = world_item(3, Some(10), Some(ItemStackType::Stackable));
    b.merge_spawned(7);
    assert_eq!(b.count, 10);
    let mut c = world_item(3, Some(10), Some(ItemStackType::Stackable));
    c.merge_spawned(2);
    assert_eq!(c.count, 5);
    let mut d = world_item(3, None, Some(ItemStackType::Stackable));
    d.merge_spawned(100);
    assert_eq!(d.count, 103);
    let mut e = world_item(3, Some(10), Some(ItemStackType::Single));
    e.merge_spawned(2);
    assert_eq!(e.count, 3);
    let mut f = world_item(3, Some(10), None);
    f.merge_spawned(2);
    assert_eq!(f.count, 3);
    assert!(ItemStackType::Stackable.is_stackable());
    assert!(!ItemStackType::Single.is_stackable());
}
