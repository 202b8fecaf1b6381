//! Kinds of living entities and world objects, and where new enemies appear.

use vstd::prelude::*;

use rand::Rng;

use crate::item::ItemType;

verus! {

/// Race of a humanoid.
#[derive(Debug, PartialEq, Eq, Clone, Copy, Hash, Structural)]
pub enum HumonoidType {
    Human,
}

/// Kind of a living entity.
#[derive(Debug, PartialEq, Eq, Clone, Copy, Hash, Structural)]
pub enum EntityType {
    Unset,
    Humonoid(HumonoidType),
    Animal,
}

/// How an entity behaves towards the player.
#[derive(Debug, PartialEq, Eq, Clone, Copy, Structural)]
pub enum EntityNeutrality {
    Hostile,
    Friendly,
    Neutral,
}

impl Default for EntityNeutrality {
    fn default() -> (r: Self)
        ensures
            r == EntityNeutrality::Neutral,
    {
        EntityNeutrality::Neutral
    }
}

/// Gender of a creature.
#[derive(Debug, PartialEq, Eq, Clone, Copy, Structural)]
pub enum EntityGender {
    Male,
    Female,
    Hermophrodite,
    Unspecified,
}

impl Default for EntityGender {
    fn default() -> (r: Self)
        ensures
            r == EntityGender::Unspecified,
    {
        EntityGender::Unspecified
    }
}

/// Whether an entity is fixed, standing or moving.
#[derive(Debug, PartialEq, Eq, Clone, Copy, Structural)]
pub enum EntityState {
    Fixed,
    Idle,
    Move,
}

impl Default for EntityState {
    fn default() -> (r: Self)
        ensures
            r == EntityState::Idle,
    {
        EntityState::Idle
    }
}

/// Kinds of plants.
#[derive(Debug, PartialEq, Eq, Clone, Copy, Hash, Structural)]
pub enum PlantType {
    Grass,
    Tree,
    Bush,
    Flower,
    Thickets,
    Vegetation,
}

/// Something that stands in the world.
#[derive(Debug, PartialEq, Eq, Clone, Copy, Hash, Structural)]
pub enum WorldObject {
    Item(ItemType),
    Plant(PlantType),
}

impl Default for WorldObject {
    fn default() -> (r: Self)
        ensures
            r == WorldObject::Item(ItemType::Empty),
    {
        WorldObject::Item(ItemType::Empty)
    }
}

/// Something that can be harvested, and what it leaves.
#[derive(Debug, PartialEq, Eq, Clone, Copy, Structural)]
pub struct Harvestable {
    pub drops: Option<WorldObject>,
}

/// Something that can be picked up.
#[derive(Debug, PartialEq, Eq, Clone, Copy, Structural)]
pub struct Pickupable {
    pub item: ItemType,
}

impl WorldObject {
    /// What the object grows into; no object grows yet.
    pub fn grows_into(&self) -> (r: Option<WorldObject>)
        ensures
            r is None,
    {
        None
    }

    /// How the object is harvested; no object is harvestable yet.
    pub fn as_harvest(&self) -> (r: Option<Harvestable>)
        ensures
            r is None,
    {
        None
    }

    /// An item lying in the world can be picked up, unless it is harvested instead.
    pub fn as_pickup(&self) -> (r: Option<Pickupable>)
        ensures
            match *self {
                WorldObject::Item(item) => r == Some(Pickupable { item }),
                WorldObject::Plant(_) => r is None,
            },
    {
        if self.as_harvest().is_some() {
            return None;
        }
        match self {
            WorldObject::Item(item) => Some(Pickupable { item: *item }),
            _ => None,
        }
    }
}

/// The edge of the window where a new enemy appears.
#[derive(Debug, PartialEq, Eq, Clone, Copy, Structural)]
pub enum SpawnEdge {
    Right,
    Left,
    Top,
    Bottom,
}

/// The edge picked by two coin flips: the first chooses between the side edges
/// and the top and bottom, the second between the two edges of that pair.
pub fn spawn_edge_from(first: i32, second: i32) -> (r: SpawnEdge)
    ensures
        first == 1 && second == 1 ==> r == SpawnEdge::Right,
        first == 1 && second != 1 ==> r == SpawnEdge::Left,
        first != 1 && second == 1 ==> r == SpawnEdge::Top,
        first != 1 && second != 1 ==> r == SpawnEdge::Bottom,
{
    if first == 1 {
        if second == 1 {
            SpawnEdge::Right
        } else {
            SpawnEdge::Left
        }
    } else {
        if second == 1 {
            SpawnEdge::Top
        } else {
            SpawnEdge::Bottom
        }
    }
}

/// Calls `rand::thread_rng().gen_range(0..2)`: rand documents the result as
/// a random value in the given range, so 0 or 1; nothing more is stated.
#[verifier::external_body]
fn coin() -> (r: i32)
    ensures
        0 <= r < 2,
{
    rand::thread_rng().gen_range(0..2)
}

/// Picks the edge where the next enemy appears, by two coin flips.
pub fn pick_spawn_edge() -> (r: SpawnEdge) {
    let first = coin();
    let second = coin();
    spawn_edge_from(first, second)
}

} // verus!
