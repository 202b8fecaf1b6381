//! The content registry: modules, entities, objects and items known by id.

use vstd::prelude::*;
use vstd::hash_map::StringHashMap;

use crate::item::{ItemEntity, ItemSizeType, ItemStackType, ItemType};

verus! {

/// A content module.
#[derive(Debug)]
pub struct ModuleRegistry {
    pub id: String,
    pub name: String,
    pub desc: String,
}

/// What a registered item is.
#[derive(Debug)]
pub struct ItemRegistry {
    pub id_name: String,
    pub id_source: Option<String>,
    pub id_texture: String,
    pub item_type: ItemType,
    pub item_size: ItemSizeType,
    pub stackable: Option<ItemStackType>,
    pub stack_size: Option<usize>,
    pub durability: Option<usize>,
}

/// Output of a recipe.
#[derive(Debug)]
pub struct CraftResult {
    pub output: String,
    pub count: usize,
}

/// A recipe: the ids it asks for and what it makes.
#[derive(Debug)]
pub struct RecipeRegistry {
    pub request: Vec<String>,
    pub result: CraftResult,
}

/// A test picture, named by its texture id.
#[derive(Debug)]
pub struct TestRegistry(pub String);

fn clone_opt_string(s: &Option<String>) -> (r: Option<String>)
    ensures
        r == *s,
{
    match s {
        Some(v) => Some(v.clone()),
        None => None,
    }
}

impl ItemRegistry {
    /// Base durability of the item.
    pub fn get_base_durability(&self) -> (r: Option<usize>)
        ensures
            r == self.durability,
    {
        self.durability
    }

    /// How many of the item fit in one slot.
    pub fn get_stack_size(&self) -> (r: Option<usize>)
        ensures
            r == self.stack_size,
    {
        self.stack_size
    }

    /// The world item made from this record: `count` of it, named by its id.
    pub fn to_item_entity(&self, count: usize) -> (r: ItemEntity)
        ensures
            r == (ItemEntity {
                name: self.id_name,
                id_name: self.id_name,
                id_source: self.id_source,
                item_type: self.item_type,
                durability: self.durability,
                stack_size: self.stack_size,
                stackable: self.stackable,
                count,
            }),
    {
        ItemEntity {
            name: self.id_name.clone(),
            id_name: self.id_name.clone(),
            id_source: clone_opt_string(&self.id_source),
            item_type: self.item_type,
            durability: self.durability,
            stack_size: self.stack_size,
            stackable: self.stackable,
            count,
        }
    }
}

/// The table after registering `v` under `k`: an id that is already taken keeps
/// its first entry.
pub open spec fn registered<V>(m: Map<Seq<char>, V>, k: Seq<char>, v: V) -> Map<Seq<char>, V> {
    if m.contains_key(k) {
        m
    } else {
        m.insert(k, v)
    }
}

/// All registered content, each kind in its own table keyed by id. Entity and
/// object records are of types `E` and `O`.
#[verifier::reject_recursive_types(E)]
#[verifier::reject_recursive_types(O)]
pub struct Registry<E, O> {
    pub module_registry: StringHashMap<ModuleRegistry>,
    pub entity_registry: StringHashMap<E>,
    pub object_registry: StringHashMap<O>,
    pub item_registry: StringHashMap<ItemRegistry>,
    pub test: StringHashMap<TestRegistry>,
}

fn register_in<V>(m: &mut StringHashMap<V>, key: &String, value: V)
    ensures
        final(m)@ == registered(old(m)@, key@, value),
{
    if !m.contains_key(key.as_str()) {
        m.insert(key.clone(), value);
    }
}

impl<E, O> Registry<E, O> {
    /// Empty tables.
    pub fn new() -> (r: Self)
        ensures
            r.module_registry@ == Map::<Seq<char>, ModuleRegistry>::empty(),
            r.entity_registry@ == Map::<Seq<char>, E>::empty(),
            r.object_registry@ == Map::<Seq<char>, O>::empty(),
            r.item_registry@ == Map::<Seq<char>, ItemRegistry>::empty(),
            r.test@ == Map::<Seq<char>, TestRegistry>::empty(),
    {
        Registry {
            module_registry: StringHashMap::new(),
            entity_registry: StringHashMap::new(),
            object_registry: StringHashMap::new(),
            item_registry: StringHashMap::new(),
            test: StringHashMap::new(),
        }
    }

    /// Registers a module under its id, unless the id is taken.
    pub fn register_module(&mut self, module_type: ModuleRegistry)
        ensures
            final(self).module_registry@ == registered(
                old(self).module_registry@,
                module_type.id@,
                module_type,
            ),
            final(self).entity_registry@ == old(self).entity_registry@,
            final(self).object_registry@ == old(self).object_registry@,
            final(self).item_registry@ == old(self).item_registry@,
            final(self).test@ == old(self).test@,
    {
        let key = module_type.id.clone();
        register_in(&mut self.module_registry, &key, module_type);
    }

    /// Registers an entity record under `id_name`, unless the id is taken.
    pub fn register_entity(&mut self, id_name: String, entity_type: E)
        ensures
            final(self).entity_registry@ == registered(old(self).entity_registry@, id_name@, entity_type),
            final(self).module_registry@ == old(self).module_registry@,
            final(self).object_registry@ == old(self).object_registry@,
            final(self).item_registry@ == old(self).item_registry@,
            final(self).test@ == old(self).test@,
    {
        register_in(&mut self.entity_registry, &id_name, entity_type);
    }

    /// The entity record registered under `name`.
    pub fn get_entity_info(&self, name: &str) -> (r: Option<&E>)
        ensures
            self.entity_registry@.contains_key(name@) ==> r == Some(&self.entity_registry@[name@]),
            !self.entity_registry@.contains_key(name@) ==> r is None,
    {
        self.entity_registry.get(name)
    }

    /// Registers an object record under `id_name`, unless the id is taken.
    pub fn register_object(&mut self, id_name: String, object_type: O)
        ensures
            final(self).object_registry@ == registered(old(self).object_registry@, id_name@, object_type),
            final(self).module_registry@ == old(self).module_registry@,
            final(self).entity_registry@ == old(self).entity_registry@,
            final(self).item_registry@ == old(self).item_registry@,
            final(self).test@ == old(self).test@,
    {
        register_in(&mut self.object_registry, &id_name, object_type);
    }

    /// The object record registered under `name`.
    pub fn get_object_info(&self, name: &str) -> (r: Option<&O>)
        ensures
            self.object_registry@.contains_key(name@) ==> r == Some(&self.object_registry@[name@]),
            !self.object_registry@.contains_key(name@) ==> r is None,
    {
        self.object_registry.get(name)
    }

    /// Registers an item under its id, unless the id is taken.
    pub fn register_item(&mut self, item_type: ItemRegistry)
        ensures
            final(self).item_registry@ == registered(old(self).item_registry@, item_type.id_name@, item_type),
            final(self).module_registry@ == old(self).module_registry@,
            final(self).entity_registry@ == old(self).entity_registry@,
            final(self).object_registry@ == old(self).object_registry@,
            final(self).test@ == old(self).test@,
    {
        let key = item_type.id_name.clone();
        register_in(&mut self.item_registry, &key, item_type);
    }

    /// The item registered under `name`.
    pub fn get_item_info(&self, name: &str) -> (r: Option<&ItemRegistry>)
        ensures
            self.item_registry@.contains_key(name@) ==> r == Some(&self.item_registry@[name@]),
            !self.item_registry@.contains_key(name@) ==> r is None,
    {
        self.item_registry.get(name)
    }

    /// Registers a test picture under `id`, unless the id is taken.
    pub fn register_test(&mut self, id: String, test_type: TestRegistry)
        ensures
            final(self).test@ == registered(old(self).test@, id@, test_type),
            final(self).module_registry@ == old(self).module_registry@,
            final(self).entity_registry@ == old(self).entity_registry@,
            final(self).object_registry@ == old(self).object_registry@,
            final(self).item_registry@ == old(self).item_registry@,
    {
        register_in(&mut self.test, &id, test_type);
    }

    /// The test picture registered under `name`.
    pub fn get_test(&self, name: &str) -> (r: Option<&TestRegistry>)
        ensures
            self.test@.contains_key(name@) ==> r == Some(&self.test@[name@]),
            !self.test@.contains_key(name@) ==> r is None,
    {
        self.test.get(name)
    }
}

/// Registering under an id that is free makes the entry readable under that id;
/// registering under a taken id leaves the first entry in place. Other ids are
/// not touched either way.
pub proof fn law_first_registration_wins<V>(m: Map<Seq<char>, V>, k: Seq<char>, v: V, other: Seq<char>)
    requires
        other != k,
    ensures
        registered(m, k, v).contains_key(k),
        registered(m, k, v)[k] == (if m.contains_key(k) {
            m[k]
        } else {
            v
        }),
        registered(m, k, v).contains_key(other) == m.contains_key(other),
        m.contains_key(other) ==> registered(m, k, v)[other] == m[other],
{
}

} // verus!
