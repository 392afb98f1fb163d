//! The map: its tiles, what blocks movement, and which entities stand on each cell.

use vstd::prelude::*;
use crate::components::Entity;

verus! {

/// The width of the standard map; spawn points are packed as `y * MAPWIDTH + x`.
pub const MAPWIDTH: usize = 80;

#[derive(Clone, Copy, PartialEq, Eq, Structural, Debug)]
pub enum TileType {
    Wall,
    Floor,
}

/// A rectangular room, from corner `(x1, y1)` to corner `(x2, y2)`.
#[derive(Clone, Copy, PartialEq, Eq, Structural, Debug)]
pub struct Rect {
    pub x1: i32,
    pub y1: i32,
    pub x2: i32,
    pub y2: i32,
}

/// Integer halving that rounds towards zero, as Rust's `/` does.
pub open spec fn half_toward_zero(a: int) -> int {
    if a >= 0 { a / 2 } else { -((-a) / 2) }
}

impl Rect {
    /// The middle cell of the room.
    pub fn center(&self) -> (c: (i32, i32))
        requires
            i32::MIN <= self.x1 + self.x2 <= i32::MAX,
            i32::MIN <= self.y1 + self.y2 <= i32::MAX,
        ensures
            c.0 == half_toward_zero(self.x1 + self.x2),
            c.1 == half_toward_zero(self.y1 + self.y2),
    {
        ((self.x1 + self.x2) / 2, (self.y1 + self.y2) / 2)
    }
}

pub struct GameMap {
    pub tiles: Vec<TileType>,
    pub rooms: Vec<Rect>,
    pub width: i32,
    pub height: i32,
    pub revealed_tiles: Vec<bool>,
    pub visible_tiles: Vec<bool>,
    pub blocked: Vec<bool>,
    pub tile_content: Vec<Vec<Entity>>,
}

/// The index of cell `(x, y)` on a map `width` cells wide.
pub open spec fn cell_index(width: int, x: int, y: int) -> int {
    y * width + x
}

impl GameMap {
    /// The number of cells.
    pub open spec fn cell_count(&self) -> int {
        self.width * self.height
    }

    /// Every per-cell vector has one entry per cell.
    pub open spec fn wf(&self) -> bool {
        &&& 1 <= self.width
        &&& 1 <= self.height
        &&& self.tiles@.len() == self.cell_count()
        &&& self.revealed_tiles@.len() == self.cell_count()
        &&& self.visible_tiles@.len() == self.cell_count()
        &&& self.blocked@.len() == self.cell_count()
        &&& self.tile_content@.len() == self.cell_count()
    }

    /// `(x, y)` lies on the map.
    pub open spec fn in_bounds(&self, x: int, y: int) -> bool {
        0 <= x < self.width && 0 <= y < self.height
    }

    /// The index of an in-bounds cell, row by row.
    pub open spec fn idx(&self, x: int, y: int) -> int {
        cell_index(self.width as int, x, y)
    }

    pub fn xy_idx(&self, x: i32, y: i32) -> (i: usize)
        requires
            self.wf(),
            self.in_bounds(x as int, y as int),
        ensures
            i == self.idx(x as int, y as int),
            i < self.cell_count(),
    {
        proof { lemma_idx_in_range(self.width as int, self.height as int, x as int, y as int); }
        // Every cell has a tile, so a cell index fits a usize.
        assert(self.cell_count() == self.tiles.len());
        assert((y as usize) * (self.width as usize) <= cell_index(self.width as int, x as int, y as int));
        (y as usize) * (self.width as usize) + (x as usize)
    }

    /// Blocks exactly the wall cells.
    pub fn populate_blocked(&mut self)
        requires
            old(self).wf(),
        ensures
            final(self).wf(),
            final(self).tiles == old(self).tiles,
            final(self).rooms == old(self).rooms,
            final(self).width == old(self).width,
            final(self).height == old(self).height,
            final(self).revealed_tiles == old(self).revealed_tiles,
            final(self).visible_tiles == old(self).visible_tiles,
            final(self).tile_content == old(self).tile_content,
            forall|i: int| 0 <= i < final(self).cell_count()
                ==> final(self).blocked@[i] == (final(self).tiles@[i] == TileType::Wall),
    {
        let n = self.tiles.len();
        let mut i: usize = 0;
        while i < n
            invariant
                self.wf(),
                n == self.tiles@.len(),
                i <= n,
                self.tiles == old(self).tiles,
                self.rooms == old(self).rooms,
                self.width == old(self).width,
                self.height == old(self).height,
                self.revealed_tiles == old(self).revealed_tiles,
                self.visible_tiles == old(self).visible_tiles,
                self.tile_content == old(self).tile_content,
                forall|j: int| 0 <= j < i ==> self.blocked@[j] == (self.tiles@[j] == TileType::Wall),
            decreases n - i,
        {
            let is_wall = self.tiles[i] == TileType::Wall;
            self.blocked.set(i, is_wall);
            i = i + 1;
        }
    }

    /// Empties every cell's list of entities.
    pub fn clear_content_index(&mut self)
        requires
            old(self).wf(),
        ensures
            final(self).wf(),
            final(self).tiles == old(self).tiles,
            final(self).rooms == old(self).rooms,
            final(self).width == old(self).width,
            final(self).height == old(self).height,
            final(self).revealed_tiles == old(self).revealed_tiles,
            final(self).visible_tiles == old(self).visible_tiles,
            final(self).blocked == old(self).blocked,
            forall|i: int| 0 <= i < final(self).cell_count()
                ==> (#[trigger] final(self).tile_content@[i])@.len() == 0,
    {
        let n = self.tile_content.len();
        let mut i: usize = 0;
        while i < n
            invariant
                self.wf(),
                n == self.tile_content@.len(),
                i <= n,
                self.tiles == old(self).tiles,
                self.rooms == old(self).rooms,
                self.width == old(self).width,
                self.height == old(self).height,
                self.revealed_tiles == old(self).revealed_tiles,
                self.visible_tiles == old(self).visible_tiles,
                self.blocked == old(self).blocked,
                forall|j: int| 0 <= j < i ==> (#[trigger] self.tile_content@[j])@.len() == 0,
            decreases n - i,
        {
            self.tile_content.set(i, Vec::new());
            i = i + 1;
        }
    }
}

/// An in-bounds cell's index is below the cell count.
pub proof fn lemma_idx_in_range(width: int, height: int, x: int, y: int)
    requires
        1 <= width,
        1 <= height,
        0 <= x < width,
        0 <= y < height,
    ensures
        0 <= cell_index(width, x, y) < width * height,
{
    assert(0 <= y * width) by (nonlinear_arith)
        requires 0 <= y, 1 <= width;
    assert(y * width + x < width * height) by (nonlinear_arith)
        requires 0 <= x < width, 0 <= y < height, 1 <= width;
}

} // verus!
