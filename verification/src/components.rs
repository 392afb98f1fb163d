//! The components that entities carry, and the plain values they are made of.

use vstd::prelude::*;

verus! {

/// An entity: an index into the world's entity table. Indices are never reused.
#[derive(Clone, Copy, PartialEq, Eq, Structural, Debug)]
pub struct Entity(pub usize);

/// A grid cell, as the player-position resource and field-of-view results use it.
#[derive(Clone, Copy, PartialEq, Eq, Structural, Debug)]
pub struct Point {
    pub x: i32,
    pub y: i32,
}

/// Where an entity stands on the map.
#[derive(Clone, Copy, PartialEq, Eq, Structural, Debug)]
pub struct Position {
    pub x: i32,
    pub y: i32,
}

/// A colour by its red, green and blue bytes.
#[derive(Clone, Copy, PartialEq, Eq, Structural, Debug)]
pub struct Color {
    pub r: u8,
    pub g: u8,
    pub b: u8,
}

/// How an entity is drawn: a code-page-437 glyph, two colours and a drawing layer.
/// Entities with a higher `render_order` are drawn first, so lower ones end on top.
#[derive(Clone, Copy, PartialEq, Eq, Structural, Debug)]
pub struct Renderable {
    pub glyph: u16,
    pub fg: Color,
    pub bg: Color,
    pub render_order: i32,
}

/// What an entity can see.
pub struct Viewshed {
    pub visible_tiles: Vec<Point>,
    pub range: i32,
    pub dirty: bool,
}

/// Hit points and fighting strength.
#[derive(Clone, Copy, PartialEq, Eq, Structural, Debug)]
pub struct CombatStats {
    pub max_hp: i32,
    pub hp: i32,
    pub defense: i32,
    pub power: i32,
}

/// The intent to attack `target` this turn.
#[derive(Clone, Copy, PartialEq, Eq, Structural, Debug)]
pub struct WantsToMelee {
    pub target: Entity,
}

/// The damage an entity takes this turn, one amount per hit.
pub struct SufferDamage {
    pub amount: Vec<i32>,
}

/// A potion heals this many hit points.
#[derive(Clone, Copy, PartialEq, Eq, Structural, Debug)]
pub struct Potion {
    pub heal_amount: i32,
}

/// The item is carried by `owner`.
#[derive(Clone, Copy, PartialEq, Eq, Structural, Debug)]
pub struct InBackpack {
    pub owner: Entity,
}

/// The intent of `collected_by` to pick `item` up.
#[derive(Clone, Copy, PartialEq, Eq, Structural, Debug)]
pub struct WantsToPickupItem {
    pub collected_by: Entity,
    pub item: Entity,
}

/// The intent to drink `potion`.
#[derive(Clone, Copy, PartialEq, Eq, Structural, Debug)]
pub struct WantsToDrinkPotion {
    pub potion: Entity,
}

/// The intent to drop `item`.
#[derive(Clone, Copy, PartialEq, Eq, Structural, Debug)]
pub struct WantsToDropItem {
    pub item: Entity,
}

/// Black, as the drawing colours use it.
pub open spec fn spec_black() -> Color {
    Color { r: 0, g: 0, b: 0 }
}

pub fn black() -> (c: Color)
    ensures c == spec_black(),
{
    Color { r: 0, g: 0, b: 0 }
}

pub open spec fn spec_yellow() -> Color {
    Color { r: 255, g: 255, b: 0 }
}

pub fn yellow() -> (c: Color)
    ensures c == spec_yellow(),
{
    Color { r: 255, g: 255, b: 0 }
}

pub open spec fn spec_red() -> Color {
    Color { r: 255, g: 0, b: 0 }
}

pub fn red() -> (c: Color)
    ensures c == spec_red(),
{
    Color { r: 255, g: 0, b: 0 }
}

pub open spec fn spec_magenta() -> Color {
    Color { r: 255, g: 0, b: 255 }
}

pub fn magenta() -> (c: Color)
    ensures c == spec_magenta(),
{
    Color { r: 255, g: 0, b: 255 }
}

} // verus!
