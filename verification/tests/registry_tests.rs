use sintet::item::{Item, ItemSizeType, ItemStackType, ItemType};
use sintet::registry::{ItemRegistry, ModuleRegistry, Registry, TestRegistry};

fn bullet(texture: &str) -> ItemRegistry {
    ItemRegistry {
        id_name: "bullet".to_string(),
        id_source: Some("core".to_string()),
        id_texture: texture.to_string(),
        item_type: ItemType::Item(Item::Ammo),
        item_size: ItemSizeType::Small,
        stackable: Some(ItemStackType::Stackable),
        stack_size: Some(64),
        durability: None,
    }
}

#[test]
fn first_item_registration_wins() {
    let mut reg: Registry<u32, u8> = Registry::new();
    reg.register_item(bullet("bullet_a"));
    reg.register_item(bullet("bullet_b"));
    let info = reg.get_item_info("bullet").expect("registered");
    assert_eq!(info.id_texture, "bullet_a");
    assert_eq!(info.get_stack_size(), Some(64));
    assert_eq!(info.get_base_durability(), None);
    assert!(reg.get_item_info("stone").is_none());
}

#[test]
fn entities_objects_modules_tests() {
    let mut reg: Registry<u32, u8> = Registry::new();
    reg.register_entity("human".to_string(), 100);
    reg.register_entity("human".to_string(), 5);
    assert_eq!(reg.get_entity_info("human"), Some(&100));
    reg.register_object("tree".to_string(), 3);
    assert_eq!(reg.get_object_info("tree"), Some(&3));
    assert_eq!(reg.get_object_info("human"), None);
    reg.register_module(ModuleRegistry { id: "core".to_string(), name: "Core".to_string(), desc: String::new() });
    reg.register_module(ModuleRegistry { id: "core".to_string(), name: "Other".to_string(), desc: String::new() });
    reg.register_test("bullet_p".to_string(), TestRegistry("bullet_p".to_string()));
    assert_eq!(reg.get_test("bullet_p").map(|t| t.0.as_str()), Some("bullet_p"));
    assert!(reg.get_test("gun").is_none());
}

#[test]
fn item_entity_from_record() {
    let info = bullet("bullet_a");
    let e = info.to_item_entity(30);
    assert_eq!(e.name, "bullet");
    assert_eq!(e.id_name, "bullet");
    assert_eq!(e.id_source.as_deref(), Some("core"));
    assert_eq!(e.count, 30);
    assert_eq!(e.stack_size, Some(64));
    assert!(e.check_stackable());
}
