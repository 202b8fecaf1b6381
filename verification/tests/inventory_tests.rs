use sintet::inventory::{
    inventory_toggle, preview_step, Inventory, InventoryDisplaySlot, InventoryToggle, PreviewAction, Slot, SlotRefresh,
};
use sintet::item::{Item, ItemEntity, ItemStackType, ItemType};

fn ammo(count: usize) -> ItemEntity {
    ItemEntity {
        name: "bullet".to_string(),
        id_name: "bullet".to_string(),
        id_source: Some("core".to_string()),
        item_type: ItemType::Item(Item::Ammo),
        durability: None,
        stack_size: Some(10),
        stackable: Some(ItemStackType::Stackable),
        count,
    }
}

fn slot_of(item: &ItemEntity) -> Slot {
    Slot {
        name: item.name.clone(),
        id_name: item.id_name.clone(),
        id_source: item.id_source.clone(),
        item_type: item.item_type,
        durability: item.durability,
        stack_size: item.stack_size,
        stackable: item.stackable,
        count: item.count,
    }
}

fn count_at(inv: &Inventory, i: usize) -> Option<usize> {
    inv.index(i).as_ref().map(|s| s.count)
}

#[test]
fn with_capacity_is_empty() {
    let inv = Inventory::with_capacity(5);
    assert_eq!(inv.len(), 5);
    assert!(inv.is_empty());
    assert!(!inv.is_full());
    let def = Inventory::default();
    assert_eq!(def.len(), Inventory::DEFAULT_CAPACITY);
    assert_eq!(def.len(), 12);
}

#[test]
fn add_into_empty_place() {
    let mut inv = Inventory::with_capacity(3);
    let mut item = ammo(4);
    assert!(inv.add(&mut item));
    assert_eq!(item.count, 0);
    assert_eq!(count_at(&inv, 0), Some(4));
    assert_eq!(count_at(&inv, 1), None);
    assert!(!inv.is_empty());
}

#[test]
fn add_stacks_fill_the_stack() {
    // A stack target is set to its stack size and hands back what exceeds it.
    let mut inv = Inventory::with_capacity(3);
    inv.add_to_slot(1, Some(slot_of(&ammo(3))));
    let mut item = ammo(4);
    assert!(inv.add(&mut item));
    assert_eq!(item.count, 0);
    assert_eq!(count_at(&inv, 1), Some(10));
    assert_eq!(count_at(&inv, 0), None);
}

#[test]
fn add_spills_into_second_stack() {
    let mut inv = Inventory::with_capacity(3);
    inv.add_to_slot(0, Some(slot_of(&ammo(8))));
    inv.add_to_slot(2, Some(slot_of(&ammo(9))));
    let mut item = ammo(5);
    assert!(!inv.add(&mut item));
    assert_eq!(item.count, 2);
    assert_eq!(count_at(&inv, 0), Some(10));
    assert_eq!(count_at(&inv, 2), Some(10));
    assert_eq!(count_at(&inv, 1), None);
}

#[test]
fn add_skips_full_stacks_and_uses_empty_place() {
    let mut inv = Inventory::with_capacity(2);
    inv.add_to_slot(0, Some(slot_of(&ammo(10))));
    let mut item = ammo(3);
    assert!(inv.add(&mut item));
    assert_eq!(count_at(&inv, 0), Some(10));
    assert_eq!(count_at(&inv, 1), Some(3));
    assert!(inv.is_full());
}

#[test]
fn add_to_full_inventory_fails() {
    let mut inv = Inventory::with_capacity(1);
    let mut other = ammo(10);
    other.id_name = "stone".to_string();
    other.name = "stone".to_string();
    inv.add_to_slot(0, Some(slot_of(&other)));
    let mut item = ammo(3);
    assert!(!inv.add(&mut item));
    assert_eq!(item.count, 3);
    let mut none = ammo(0);
    assert!(inv.add(&mut none));
}

#[test]
fn add_single_items_never_stack() {
    let mut inv = Inventory::with_capacity(2);
    let mut gun = ammo(1);
    gun.stackable = Some(ItemStackType::Single);
    let mut second = ammo(1);
    second.stackable = Some(ItemStackType::Single);
    assert!(inv.add(&mut gun));
    assert!(inv.add(&mut second));
    assert_eq!(count_at(&inv, 0), Some(1));
    assert_eq!(count_at(&inv, 1), Some(1));
}

#[test]
fn add_ex_places_whole_item() {
    let mut inv = Inventory::with_capacity(1);
    assert!(inv.add_ex(ammo(30)));
    assert_eq!(count_at(&inv, 0), Some(30));
    assert!(!inv.add_ex(ammo(1)));
}

#[test]
fn take_reduces_or_empties() {
    let mut inv = Inventory::with_capacity(2);
    inv.add_to_slot(1, Some(slot_of(&ammo(5))));
    assert!(inv.take(("bullet".to_string(), 1)));
    assert_eq!(count_at(&inv, 1), Some(4));
    assert!(!inv.take(("bullet".to_string(), 5)));
    assert!(inv.take(("bullet".to_string(), 4)));
    assert_eq!(count_at(&inv, 1), None);
    assert!(!inv.take(("bullet".to_string(), 1)));
    assert!(!inv.take(("stone".to_string(), 0)));
}

#[test]
fn take_all_ex_hands_over_slot() {
    let mut inv = Inventory::with_capacity(2);
    let mut item = ammo(7);
    item.name = "Bullet".to_string();
    inv.add_to_slot(1, Some(slot_of(&item)));
    assert!(inv.take_all_ex("stone").is_none());
    let taken = inv.take_all_ex("Bullet").expect("slot by name");
    assert_eq!(taken.count, 7);
    assert!(inv.is_empty());
    inv.add_to_slot(0, Some(slot_of(&item)));
    assert_eq!(inv.take_all_ex("bullet").map(|s| s.count), Some(7));
}

#[test]
fn find_and_find_slot_index() {
    let mut inv = Inventory::with_capacity(3);
    let mut item = ammo(2);
    item.name = "Bullet".to_string();
    inv.add_to_slot(2, Some(slot_of(&item)));
    assert!(inv.find("bullet"));
    assert!(inv.find("Bullet"));
    assert!(!inv.find("stone"));
    assert_eq!(inv.find_slot_index("Bullet"), Some(2));
    assert_eq!(inv.find_slot_index("bullet"), None);
}

#[test]
fn iter_some_lists_occupied_in_order() {
    let mut inv = Inventory::with_capacity(4);
    inv.add_to_slot(3, Some(slot_of(&ammo(3))));
    inv.add_to_slot(1, Some(slot_of(&ammo(1))));
    let counts: Vec<usize> = inv.iter_some().iter().map(|s| s.count).collect();
    assert_eq!(counts, vec![1, 3]);
}

#[test]
fn get_slot_and_mut() {
    let mut inv = Inventory::with_capacity(2);
    assert!(inv.get_slot(2).is_none());
    assert!(matches!(inv.get_slot(1), Some(None)));
    if let Some(place) = inv.get_slot_mut(0) {
        *place = Some(slot_of(&ammo(6)));
    }
    assert_eq!(count_at(&inv, 0), Some(6));
    assert!(inv.get_slot_mut(5).is_none());
    inv.add_to_slot(9, Some(slot_of(&ammo(1))));
    assert_eq!(inv.len(), 2);
}

#[test]
fn slot_fullness_and_stacking() {
    let s = slot_of(&ammo(10));
    assert!(s.is_full());
    assert!(s.check_stackable());
    let mut t = slot_of(&ammo(3));
    t.stack_size = None;
    assert!(t.is_full());
    t.stackable = None;
    assert!(!t.check_stackable());
}

#[test]
fn law_take_after_placing_gives_item_back() {
    let mut inv = Inventory::with_capacity(2);
    let mut item = ammo(6);
    assert!(inv.add(&mut item));
    assert!(inv.take(("bullet".to_string(), 6)));
    assert!(inv.is_empty());
}

#[test]
fn law_take_removes_exact_amount() {
    let mut inv = Inventory::with_capacity(3);
    inv.add_to_slot(0, Some(slot_of(&ammo(2))));
    inv.add_to_slot(1, Some(slot_of(&ammo(9))));
    let total = |inv: &Inventory| -> usize { inv.iter_some().iter().map(|s| s.count).sum() };
    let before = total(&inv);
    assert!(inv.take(("bullet".to_string(), 5)));
    assert_eq!(total(&inv), before - 5);
    assert_eq!(count_at(&inv, 0), Some(2));
    assert_eq!(count_at(&inv, 1), Some(4));
}

#[test]
fn law_add_never_loses_items() {
    let mut inv = Inventory::with_capacity(2);
    inv.add_to_slot(0, Some(slot_of(&ammo(7))));
    let mut item = ammo(6);
    let total = |inv: &Inventory| -> usize { inv.iter_some().iter().map(|s| s.count).sum() };
    let before = total(&inv) + item.count;
    let placed = inv.add(&mut item);
    assert_eq!(placed, item.count == 0);
    assert!(total(&inv) + item.count >= before);
    assert_eq!(inv.len(), 2);
}

#[test]
fn display_slot_refresh_cases() {
    let mut inv = Inventory::with_capacity(2);
    let mut item = ammo(3);
    item.name = "Bullet".to_string();
    inv.add_to_slot(0, Some(slot_of(&item)));

    let mut shown = InventoryDisplaySlot::default();
    assert_eq!(shown.refresh(&inv), SlotRefresh::Draw);
    assert_eq!(shown.item.as_deref(), Some("Bullet"));
    assert_eq!(shown.count, Some(3));

    assert_eq!(shown.refresh(&inv), SlotRefresh::Unchanged);

    let mut other = ammo(5);
    other.name = "Shell".to_string();
    inv.add_to_slot(0, Some(slot_of(&other)));
    assert_eq!(shown.refresh(&inv), SlotRefresh::Redraw);
    assert_eq!(shown.item.as_deref(), Some("Shell"));
    assert_eq!(shown.count, Some(5));

    let mut no_count = InventoryDisplaySlot { index: 0, item: Some("Bullet".to_string()), count: None };
    assert_eq!(no_count.refresh(&inv), SlotRefresh::Redraw);
    assert_eq!(no_count.count, None);

    let mut empty_place = InventoryDisplaySlot { index: 1, item: Some("x".to_string()), count: Some(1) };
    assert_eq!(empty_place.refresh(&inv), SlotRefresh::Clear);
    assert_eq!(empty_place.item, None);
    assert_eq!(empty_place.count, Some(1));
}

#[test]
fn inventory_key() {
    assert_eq!(inventory_toggle(false, true, true, false, false), (InventoryToggle::Nothing, false));
    assert_eq!(inventory_toggle(true, false, true, false, true), (InventoryToggle::Nothing, true));
    assert_eq!(inventory_toggle(true, true, false, true, false), (InventoryToggle::MissingInventory, false));
    assert_eq!(inventory_toggle(true, true, true, true, true), (InventoryToggle::Close, false));
    assert_eq!(inventory_toggle(true, true, true, false, false), (InventoryToggle::Open, true));
    assert_eq!(inventory_toggle(true, true, true, false, true), (InventoryToggle::Nothing, true));
}

#[test]
fn cursor_preview() {
    assert_eq!(preview_step(false, true, false), PreviewAction::Keep);
    assert_eq!(preview_step(true, false, false), PreviewAction::Keep);
    assert_eq!(preview_step(true, false, true), PreviewAction::Remove);
    assert_eq!(preview_step(true, true, false), PreviewAction::Show);
    assert_eq!(preview_step(true, true, true), PreviewAction::Keep);
}
