//! Game logic of the SINT-et sandbox: inventories, items, levels,
//! sprite-atlas indexing, the content registry and the in-game console.

pub mod assets;
pub mod atlas;
pub mod console;
pub mod control;
pub mod entity;
pub mod inventory;
pub mod item;
pub mod registry;
pub mod stats;
pub mod text;
