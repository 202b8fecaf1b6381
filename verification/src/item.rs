//! Item kinds, stacking rules and the item entity that lies in the world.

use vstd::prelude::*;
use vstd::string::StringExecFns;

use crate::text::decimal_string;

verus! {

/// Physical size class of an item.
#[derive(Debug, PartialEq, Eq, Clone, Copy, Hash, Structural)]
pub enum ItemSizeType {
    Small,
    Big,
}

impl Default for ItemSizeType {
    fn default() -> (r: Self)
        ensures
            r == ItemSizeType::Small,
    {
        ItemSizeType::Small
    }
}

/// Whether several items of one kind may share a slot.
#[derive(Debug, PartialEq, Eq, Clone, Copy, Hash, Structural)]
pub enum ItemStackType {
    Stackable,
    Single,
}

impl ItemStackType {
    pub open spec fn spec_is_stackable(self) -> bool {
        self is Stackable
    }

    /// True when items of this kind pile up in one slot.
    pub fn is_stackable(&self) -> (r: bool)
        ensures
            r == self.spec_is_stackable(),
    {
        match self {
            ItemStackType::Stackable => true,
            ItemStackType::Single => false,
        }
    }
}

/// Everything that can be used as a tool.
#[derive(Debug, PartialEq, Eq, Clone, Copy, Hash, Structural)]
pub enum Tool {
    Axe,
    Shovel,
    Hoe,
    Pickaxe,
}

/// Everything that can be used as a weapon.
#[derive(Debug, PartialEq, Eq, Clone, Copy, Hash, Structural)]
pub enum Weapon {
    Gun,
}

/// Raw materials.
#[derive(Debug, PartialEq, Eq, Clone, Copy, Hash, Structural)]
pub enum Material {
    Wood,
    Cobblestone,
    Flint,
}

/// Ammunition kinds.
#[derive(Debug, PartialEq, Eq, Clone, Copy, Hash, Structural)]
pub enum Ammo {
    SmallAmmo,
    MediumAmmo,
    LargeAmmo,
    Rocket,
}

/// Everything that is a plain item.
#[derive(Debug, PartialEq, Eq, Clone, Copy, Hash, Structural)]
pub enum Item {
    Material(Material),
    Consumables,
    Ammo,
}

/// Everything an item can be.
#[derive(Debug, PartialEq, Eq, Clone, Copy, Hash, Structural)]
pub enum ItemType {
    Empty,
    Tool(Tool),
    Weapon(Weapon),
    Item(Item),
}

impl Default for ItemType {
    fn default() -> (r: Self)
        ensures
            r == ItemType::Empty,
    {
        ItemType::Empty
    }
}

/// The debug text of a tool: its variant name.
pub open spec fn tool_text(t: Tool) -> Seq<char> {
    match t {
        Tool::Axe => "Axe"@,
        Tool::Shovel => "Shovel"@,
        Tool::Hoe => "Hoe"@,
        Tool::Pickaxe => "Pickaxe"@,
    }
}

pub open spec fn material_text(m: Material) -> Seq<char> {
    match m {
        Material::Wood => "Wood"@,
        Material::Cobblestone => "Cobblestone"@,
        Material::Flint => "Flint"@,
    }
}

pub open spec fn item_text(i: Item) -> Seq<char> {
    match i {
        Item::Material(m) => "Material("@ + material_text(m) + ")"@,
        Item::Consumables => "Consumables"@,
        Item::Ammo => "Ammo"@,
    }
}

/// The debug text of an item type, as `{:?}` writes it.
pub open spec fn item_type_text(t: ItemType) -> Seq<char> {
    match t {
        ItemType::Empty => "None"@,
        ItemType::Tool(tool) => "Tool("@ + tool_text(tool) + ")"@,
        ItemType::Weapon(_) => "Weapon(Gun)"@,
        ItemType::Item(i) => "Item("@ + item_text(i) + ")"@,
    }
}

/// The display name of an item type: a tool is named by its own kind.
pub open spec fn item_type_name(t: ItemType) -> Seq<char> {
    match t {
        ItemType::Tool(tool) => tool_text(tool),
        _ => item_type_text(t),
    }
}

fn tool_string(t: Tool) -> (r: String)
    ensures
        r@ == tool_text(t),
{
    match t {
        Tool::Axe => String::from_str("Axe"),
        Tool::Shovel => String::from_str("Shovel"),
        Tool::Hoe => String::from_str("Hoe"),
        Tool::Pickaxe => String::from_str("Pickaxe"),
    }
}

fn material_string(m: Material) -> (r: String)
    ensures
        r@ == material_text(m),
{
    match m {
        Material::Wood => String::from_str("Wood"),
        Material::Cobblestone => String::from_str("Cobblestone"),
        Material::Flint => String::from_str("Flint"),
    }
}

fn item_string(i: Item) -> (r: String)
    ensures
        r@ == item_text(i),
{
    match i {
        Item::Material(m) => {
            let mut s = String::from_str("Material(");
            let inner = material_string(m);
            s.append(inner.as_str());
            s.append(")");
            s
        },
        Item::Consumables => String::from_str("Consumables"),
        Item::Ammo => String::from_str("Ammo"),
    }
}

impl ItemType {
    /// The debug text of this item type.
    pub fn debug_text(&self) -> (r: String)
        ensures
            r@ == item_type_text(*self),
    {
        match *self {
            ItemType::Empty => String::from_str("None"),
            ItemType::Tool(tool) => {
                let mut s = String::from_str("Tool(");
                let inner = tool_string(tool);
                s.append(inner.as_str());
                s.append(")");
                s
            },
            ItemType::Weapon(_) => String::from_str("Weapon(Gun)"),
            ItemType::Item(i) => {
                let mut s = String::from_str("Item(");
                let inner = item_string(i);
                s.append(inner.as_str());
                s.append(")");
                s
            },
        }
    }

    /// Name of the type: the tool kind for a tool, the debug text otherwise.
    pub fn name(self) -> (r: String)
        ensures
            r@ == item_type_name(self),
    {
        match self {
            ItemType::Tool(tool) => tool_string(tool),
            _ => self.debug_text(),
        }
    }
}

/// An item kind together with how many of it.
#[derive(Debug, PartialEq, Eq, Clone, Copy, Hash, Structural)]
pub struct ItemAndCount {
    pub item: ItemType,
    pub count: usize,
}

impl ItemAndCount {
    /// The text `"{count}x {item:?}"`.
    pub fn to_string(&self) -> (r: String)
        ensures
            r@ == crate::text::spec_decimal(self.count as nat) + "x "@ + item_type_text(self.item),
    {
        let mut s = decimal_string(self.count);
        s.append("x ");
        let t = self.item.debug_text();
        s.append(t.as_str());
        s
    }
}

/// An item lying in the world, with what is needed to put it in a slot.
#[derive(Debug)]
pub struct ItemEntity {
    pub name: String,
    pub id_name: String,
    pub id_source: Option<String>,
    pub item_type: ItemType,
    pub durability: Option<usize>,
    pub stack_size: Option<usize>,
    pub stackable: Option<ItemStackType>,
    pub count: usize,
}

/// Whether an optional stacking rule lets items pile up.
pub open spec fn stacks(s: Option<ItemStackType>) -> bool {
    match s {
        Some(st) => st.spec_is_stackable(),
        None => false,
    }
}

/// The count a world item reaches when `added` more of it land on its tile.
pub open spec fn merged_count(
    count: usize,
    added: usize,
    stackable: Option<ItemStackType>,
    stack_size: Option<usize>,
) -> int {
    if stacks(stackable) {
        match stack_size {
            Some(ss) => if count + added > ss {
                ss as int
            } else {
                count + added
            },
            None => count + added,
        }
    } else {
        count as int
    }
}

impl Default for ItemEntity {
    fn default() -> (r: Self)
        ensures
            r.name@ == Seq::<char>::empty(),
            r.id_name@ == Seq::<char>::empty(),
            r.id_source is None,
            r.item_type == ItemType::Empty,
            r.durability is None,
            r.stack_size is None,
            r.stackable is None,
            r.count == 0,
    {
        ItemEntity {
            name: String::new(),
            id_name: String::new(),
            id_source: None,
            item_type: ItemType::Empty,
            durability: None,
            stack_size: None,
            stackable: None,
            count: 0,
        }
    }
}

impl ItemEntity {
    pub open spec fn spec_check_stackable(&self) -> bool {
        stacks(self.stackable)
    }

    /// True when this item may pile up in one slot.
    pub fn check_stackable(&self) -> (r: bool)
        ensures
            r == self.spec_check_stackable(),
    {
        match self.stackable {
            Some(stack) => stack.is_stackable(),
            None => false,
        }
    }

    /// Adds `added` items that were spawned on the tile of this one:
    /// a stackable item grows, up to its stack size when it has one;
    /// an item that does not stack stays as it is.
    pub fn merge_spawned(&mut self, added: usize)
        requires
            old(self).spec_check_stackable() ==> old(self).count + added <= usize::MAX,
        ensures
            final(self).count == merged_count(
                old(self).count,
                added,
                old(self).stackable,
                old(self).stack_size,
            ),
            *final(self) == (ItemEntity { count: final(self).count, ..*old(self) }),
    {
        if self.check_stackable() {
            match self.stack_size {
                Some(stack_size) => {
                    if self.count + added > stack_size {
                        self.count = stack_size;
                    } else {
                        self.count = self.count + added;
                    }
                },
                None => {
                    self.count = self.count + added;
                },
            }
        }
    }
}

} // verus!
