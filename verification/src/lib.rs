//! The rules of a small roguelike: entities and their components, the map index,
//! combat damage, items and inventory, monster decisions, player moves and spawning.

pub mod components;
pub mod map;
pub mod random;
pub mod codepage;
pub mod world;
pub mod map_indexing_system;
pub mod damage_system;
pub mod text;
pub mod inventory_system;
pub mod player;
pub mod state;
pub mod monster_ai_system;
pub mod spawner;
pub mod render;
pub mod laws;
