//! Facing directions and where their pictures sit in a sprite atlas.

use vstd::prelude::*;
use vstd::hash_map::StringHashMap;

verus! {

/// Four-way facing of a moving entity; its pictures come in groups of four.
#[derive(Debug, PartialEq, Eq, Clone, Copy, Structural)]
pub enum EntityDirectionState {
    South,
    North,
    East,
    West,
}

impl Default for EntityDirectionState {
    fn default() -> (r: Self)
        ensures
            r == EntityDirectionState::South,
    {
        EntityDirectionState::South
    }
}

impl EntityDirectionState {
    pub open spec fn spec_dir_index(self) -> usize {
        match self {
            EntityDirectionState::South => 0,
            EntityDirectionState::North => 1,
            EntityDirectionState::East => 2,
            EntityDirectionState::West => 3,
        }
    }

    /// Position of this facing within its group of four pictures.
    pub fn dir_index(&self) -> (r: usize)
        ensures
            r == self.spec_dir_index(),
    {
        match self {
            EntityDirectionState::South => 0,
            EntityDirectionState::North => 1,
            EntityDirectionState::East => 2,
            EntityDirectionState::West => 3,
        }
    }

    /// Atlas index of a picture: group `atlas_number`, facing `direction_index`.
    pub fn calculate_index(atlas_number: usize, direction_index: usize) -> (r: usize)
        requires
            atlas_number * 4 + direction_index <= usize::MAX,
        ensures
            r == atlas_number * 4 + direction_index,
    {
        atlas_number * 4 + direction_index
    }
}

/// Eight-way facing; its pictures form a 3 by 3 block with the middle one unused.
#[derive(Debug, PartialEq, Eq, Clone, Copy, Structural)]
pub enum EntityEightDirectionState {
    NorthWest,
    North,
    NorthEast,
    West,
    Center,
    East,
    SouthWest,
    South,
    SouthEast,
}

impl Default for EntityEightDirectionState {
    fn default() -> (r: Self)
        ensures
            r == EntityEightDirectionState::South,
    {
        EntityEightDirectionState::South
    }
}

/// Index of a picture in a square atlas `size` pictures wide that is cut into
/// blocks `block` pictures wide: block number `number` (blocks are counted row by
/// row), place `place` within the block (counted row by row).
pub open spec fn block_index(size: int, block: int, number: int, place: int) -> int {
    let group_width = size / block;
    let per_row = size / group_width;
    let group_x = number % per_row;
    let group_y = number / per_row;
    let x = group_x * block + place % block;
    let y = group_y * block + place / block;
    y * size + x
}

fn block_index_exec(size: usize, block: usize, number: usize, place: usize) -> (r: usize)
    requires
        block == 3 || block == 4,
        size >= block,
        block_index(size as int, block as int, number as int, place as int) <= usize::MAX,
    ensures
        r == block_index(size as int, block as int, number as int, place as int),
{
    let third = size / block;
    let group_width = if third < size {
        third
    } else {
        size
    };
    assert(group_width == size / block);
    assert(group_width >= 1) by (nonlinear_arith)
        requires
            size >= block,
            block >= 3,
            group_width == size / block,
    ;
    let per_row = size / group_width;
    assert(per_row >= 1) by (nonlinear_arith)
        requires
            group_width >= 1,
            group_width <= size,
            per_row == size / group_width,
    ;
    let group_x = number % per_row;
    let group_y = number / per_row;
    let tx = place % block;
    let ty = place / block;
    let ghost gx: int = group_x * block + tx;
    let ghost gy: int = group_y * block + ty;
    assert(gy * size + gx <= usize::MAX);
    assert(gx <= usize::MAX && gy <= usize::MAX && gy * size <= usize::MAX) by (nonlinear_arith)
        requires
            gy * size + gx <= usize::MAX,
            gx >= 0,
            gy >= 0,
            size >= 1,
    ;
    assert(group_y * block <= gy);
    assert(group_x * block <= gx);
    let x = group_x * block + tx;
    let y = group_y * block + ty;
    y * size + x
}

impl EntityEightDirectionState {
    pub open spec fn spec_dir_index(self) -> usize {
        match self {
            EntityEightDirectionState::NorthWest => 0,
            EntityEightDirectionState::North => 1,
            EntityEightDirectionState::NorthEast => 2,
            EntityEightDirectionState::West => 3,
            EntityEightDirectionState::Center => 4,
            EntityEightDirectionState::East => 5,
            EntityEightDirectionState::SouthWest => 6,
            EntityEightDirectionState::South => 7,
            EntityEightDirectionState::SouthEast => 8,
        }
    }

    /// Position of this facing within its 3 by 3 block.
    pub fn dir_index(&self) -> (r: usize)
        ensures
            r == self.spec_dir_index(),
    {
        match self {
            EntityEightDirectionState::NorthWest => 0,
            EntityEightDirectionState::North => 1,
            EntityEightDirectionState::NorthEast => 2,
            EntityEightDirectionState::West => 3,
            EntityEightDirectionState::Center => 4,
            EntityEightDirectionState::East => 5,
            EntityEightDirectionState::SouthWest => 6,
            EntityEightDirectionState::South => 7,
            EntityEightDirectionState::SouthEast => 8,
        }
    }

    /// Atlas index of a picture in an atlas `atlas_size` pictures wide, cut into
    /// 3 by 3 blocks: block `atlas_number`, facing `direction_index`.
    pub fn calculate_index(atlas_size: usize, atlas_number: usize, direction_index: usize) -> (r: usize)
        requires
            atlas_size >= 3,
            block_index(atlas_size as int, 3, atlas_number as int, direction_index as int) <= usize::MAX,
        ensures
            r == block_index(atlas_size as int, 3, atlas_number as int, direction_index as int),
    {
        block_index_exec(atlas_size, 3, atlas_number, direction_index)
    }
}

/// How a wall-like object joins its neighbours; its pictures form 4 by 4 blocks.
#[derive(Debug, PartialEq, Eq, Clone, Copy, Structural)]
pub enum ConnectedObject {
    All,
    Lone,
    NorthSouth,
    EastWest,
    East,
    South,
    West,
    North,
    EastSouth,
    WestSouth,
    NorthWest,
    NorthEast,
    NorthWestSouth,
    NorthEastWest,
    NorthEastSouth,
    EastWestSouth,
}

impl ConnectedObject {
    pub open spec fn spec_dir_index(self) -> usize {
        match self {
            ConnectedObject::All => 0,
            ConnectedObject::Lone => 1,
            ConnectedObject::NorthSouth => 2,
            ConnectedObject::EastWest => 3,
            ConnectedObject::East => 4,
            ConnectedObject::South => 5,
            ConnectedObject::West => 6,
            ConnectedObject::North => 7,
            ConnectedObject::EastSouth => 8,
            ConnectedObject::WestSouth => 9,
            ConnectedObject::NorthWest => 10,
            ConnectedObject::NorthEast => 11,
            ConnectedObject::NorthWestSouth => 12,
            ConnectedObject::NorthEastWest => 13,
            ConnectedObject::NorthEastSouth => 14,
            ConnectedObject::EastWestSouth => 15,
        }
    }

    /// Position of this joint within its 4 by 4 block.
    pub fn dir_index(&self) -> (r: usize)
        ensures
            r == self.spec_dir_index(),
    {
        match self {
            ConnectedObject::All => 0,
            ConnectedObject::Lone => 1,
            ConnectedObject::NorthSouth => 2,
            ConnectedObject::EastWest => 3,
            ConnectedObject::East => 4,
            ConnectedObject::South => 5,
            ConnectedObject::West => 6,
            ConnectedObject::North => 7,
            ConnectedObject::EastSouth => 8,
            ConnectedObject::WestSouth => 9,
            ConnectedObject::NorthWest => 10,
            ConnectedObject::NorthEast => 11,
            ConnectedObject::NorthWestSouth => 12,
            ConnectedObject::NorthEastWest => 13,
            ConnectedObject::NorthEastSouth => 14,
            ConnectedObject::EastWestSouth => 15,
        }
    }

    /// Atlas index of a picture in an atlas `atlas_size` pictures wide, cut into
    /// 4 by 4 blocks: block `atlas_number`, joint `direction_index`.
    pub fn calculate_index(atlas_size: usize, atlas_number: usize, direction_index: usize) -> (r: usize)
        requires
            atlas_size >= 4,
            block_index(atlas_size as int, 4, atlas_number as int, direction_index as int) <= usize::MAX,
        ensures
            r == block_index(atlas_size as int, 4, atlas_number as int, direction_index as int),
    {
        block_index_exec(atlas_size, 4, atlas_number, direction_index)
    }
}

/// Facing of a placed object.
#[derive(Debug, PartialEq, Eq, Clone, Copy, Structural)]
pub enum ObjectDirectionState {
    South,
    North,
    West,
    East,
}

impl Default for ObjectDirectionState {
    fn default() -> (r: Self)
        ensures
            r == ObjectDirectionState::South,
    {
        ObjectDirectionState::South
    }
}

/// Facing of a moving body, or none while it has no direction yet.
#[derive(Debug, PartialEq, Eq, Clone, Copy, Structural)]
pub enum DirectionState {
    Still,
    South,
    North,
    West,
    East,
}

impl Default for DirectionState {
    fn default() -> (r: Self)
        ensures
            r == DirectionState::Still,
    {
        DirectionState::Still
    }
}

/// The side length of the smallest square grid with room for `num_textures`
/// pictures: the least `r` with `r * r >= num_textures`.
pub fn calculate_min_square_size(num_textures: usize) -> (r: usize)
    ensures
        r * r >= num_textures,
        r > 0 ==> (r - 1) * (r - 1) < num_textures,
{
    let mut r: usize = 0;
    assert(usize::MAX < 0x1_0000_0000_0000_0000);
    loop
        invariant
            r <= num_textures,
            r > 0 ==> (r - 1) * (r - 1) < num_textures,
        ensures
            r * r >= num_textures,
            r > 0 ==> (r - 1) * (r - 1) < num_textures,
        decreases num_textures - r,
    {
        assert((r as u128) * (r as u128) <= u128::MAX) by (nonlinear_arith)
            requires
                r <= usize::MAX,
                usize::MAX < 0x1_0000_0000_0000_0000,
        ;
        let square: u128 = (r as u128) * (r as u128);
        if square >= num_textures as u128 {
            break;
        }
        assert(r < num_textures) by (nonlinear_arith)
            requires
                r * r < num_textures,
        ;
        r = r + 1;
    }
    r
}

/// Names of pictures and their places in an atlas.
pub struct SpriteIds {
    ids: StringHashMap<usize>,
}

impl View for SpriteIds {
    type V = Map<Seq<char>, usize>;

    closed spec fn view(&self) -> Map<Seq<char>, usize> {
        self.ids@
    }
}

impl SpriteIds {
    /// No picture known.
    pub fn new() -> (r: Self)
        ensures
            r@ == Map::<Seq<char>, usize>::empty(),
    {
        SpriteIds { ids: StringHashMap::new() }
    }

    /// Records that the picture `name` sits at `index`; a later record of the
    /// same name replaces an earlier one.
    pub fn insert(&mut self, name: String, index: usize)
        ensures
            final(self)@ == old(self)@.insert(name@, index),
    {
        self.ids.insert(name, index);
    }

    /// Where the picture `name` sits, if it is known.
    pub fn get(&self, name: &str) -> (r: Option<usize>)
        ensures
            self@.contains_key(name@) ==> r == Some(self@[name@]),
            !self@.contains_key(name@) ==> r is None,
    {
        match self.ids.get(name) {
            Some(i) => Some(*i),
            None => None,
        }
    }
}

/// Where the picture `name` sits; 0 when the atlas has no table yet or does not
/// know the name.
pub fn get_index(name: &str, ids: &Option<SpriteIds>) -> (r: usize)
    ensures
        r == match ids {
            Some(t) => if t@.contains_key(name@) {
                t@[name@]
            } else {
                0
            },
            None => 0,
        },
{
    match ids {
        Some(t) => match t.get(name) {
            Some(i) => i,
            None => 0,
        },
        None => 0,
    }
}

} // verus!

verus! {

impl EntityDirectionState {
    /// The facing that looks the other way.
    pub open spec fn spec_opposite(self) -> EntityDirectionState {
        match self {
            EntityDirectionState::South => EntityDirectionState::North,
            EntityDirectionState::North => EntityDirectionState::South,
            EntityDirectionState::East => EntityDirectionState::West,
            EntityDirectionState::West => EntityDirectionState::East,
        }
    }

    /// A head turns to look in a direction unless its body faces the opposite way.
    pub fn head_may_turn(body: EntityDirectionState, look: EntityDirectionState) -> (r: bool)
        ensures
            r == (body != look.spec_opposite()),
    {
        match look {
            EntityDirectionState::South => body != EntityDirectionState::North,
            EntityDirectionState::North => body != EntityDirectionState::South,
            EntityDirectionState::East => body != EntityDirectionState::West,
            EntityDirectionState::West => body != EntityDirectionState::East,
        }
    }
}

/// The sprite atlases, one per kind of picture.
#[derive(Debug, PartialEq, Eq, Clone, Copy, Structural)]
pub enum AtlasType {
    Items,
    Material,
    Terrain,
    Objects,
    ConnectObj,
    Particle,
    Entity,
    Test,
    Ui,
}

/// The name tables of all atlases; a table is missing until its atlas is built.
pub struct AtlasIds {
    pub items: Option<SpriteIds>,
    pub material: Option<SpriteIds>,
    pub terrain: Option<SpriteIds>,
    pub objects: Option<SpriteIds>,
    pub con_obj: Option<SpriteIds>,
    pub particle: Option<SpriteIds>,
    pub entity: Option<SpriteIds>,
    pub test: Option<SpriteIds>,
    pub ui: Option<SpriteIds>,
}

impl AtlasIds {
    /// The table of the atlas of the given kind.
    pub open spec fn spec_table(&self, kind: AtlasType) -> Option<SpriteIds> {
        match kind {
            AtlasType::Items => self.items,
            AtlasType::Material => self.material,
            AtlasType::Terrain => self.terrain,
            AtlasType::Objects => self.objects,
            AtlasType::ConnectObj => self.con_obj,
            AtlasType::Particle => self.particle,
            AtlasType::Entity => self.entity,
            AtlasType::Test => self.test,
            AtlasType::Ui => self.ui,
        }
    }

    /// No atlas built yet.
    pub fn init() -> (r: Self)
        ensures
            forall|k: AtlasType| (#[trigger] r.spec_table(k)) is None,
    {
        AtlasIds {
            items: None,
            material: None,
            terrain: None,
            objects: None,
            con_obj: None,
            particle: None,
            entity: None,
            test: None,
            ui: None,
        }
    }

    /// The table of the atlas of the given kind.
    pub fn table(&self, kind: AtlasType) -> (r: &Option<SpriteIds>)
        ensures
            *r == self.spec_table(kind),
    {
        match kind {
            AtlasType::Items => &self.items,
            AtlasType::Material => &self.material,
            AtlasType::Terrain => &self.terrain,
            AtlasType::Objects => &self.objects,
            AtlasType::ConnectObj => &self.con_obj,
            AtlasType::Particle => &self.particle,
            AtlasType::Entity => &self.entity,
            AtlasType::Test => &self.test,
            AtlasType::Ui => &self.ui,
        }
    }

    /// Where the picture `name` sits in the atlas of the given kind, when that
    /// atlas is built and knows the name.
    pub fn index_of(&self, kind: AtlasType, name: &str) -> (r: Option<usize>)
        ensures
            match self.spec_table(kind) {
                Some(t) => if t@.contains_key(name@) {
                    r == Some(t@[name@])
                } else {
                    r is None
                },
                None => r is None,
            },
    {
        match self.table(kind) {
            Some(t) => t.get(name),
            None => None,
        }
    }
}

} // verus!
