//! Rebuilds the map's index: which cells are blocked and which entities stand where.

use vstd::prelude::*;
use crate::components::Entity;
use crate::map::{GameMap, TileType};
use crate::world::{lemma_record_at, EntityRecord, World};

verus! {

pub struct MapIdexingSystem {}

/// The cell index of the record's position on `map` (meaningful when it has one).
pub open spec fn cell_of(map: GameMap, r: EntityRecord) -> int {
    map.idx(r.position.unwrap().x as int, r.position.unwrap().y as int)
}

/// The entities among the first `k` records that stand on cell `c`, in id order.
pub open spec fn entities_at(recs: Seq<EntityRecord>, map: GameMap, c: int, k: int) -> Seq<Entity>
    decreases k,
{
    if k <= 0 {
        seq![]
    } else {
        let prev = entities_at(recs, map, c, k - 1);
        if recs[k - 1].position is Some && cell_of(map, recs[k - 1]) == c {
            prev.push(Entity((k - 1) as usize))
        } else {
            prev
        }
    }
}

/// Some blocking entity among the first `k` records stands on cell `c`.
pub open spec fn blocker_at(recs: Seq<EntityRecord>, map: GameMap, c: int, k: int) -> bool {
    exists|j: int| 0 <= j < k && (#[trigger] recs[j]).block_tile && recs[j].position is Some
        && cell_of(map, recs[j]) == c
}

/// `m1` is `m0` with its index rebuilt from `recs`: a cell is blocked exactly when it
/// is a wall or a blocking entity stands on it, and lists the entities on it in id order.
pub open spec fn map_indexed(recs: Seq<EntityRecord>, m0: GameMap, m1: GameMap) -> bool {
    &&& m1.tiles == m0.tiles
    &&& m1.rooms == m0.rooms
    &&& m1.width == m0.width
    &&& m1.height == m0.height
    &&& m1.revealed_tiles == m0.revealed_tiles
    &&& m1.visible_tiles == m0.visible_tiles
    &&& m1.blocked@.len() == m0.blocked@.len()
    &&& m1.tile_content@.len() == m0.tile_content@.len()
    &&& forall|c: int| 0 <= c < m1.cell_count() ==>
        (#[trigger] m1.blocked@[c]) == (m0.tiles@[c] == TileType::Wall || blocker_at(recs, m0, c, recs.len() as int))
    &&& forall|c: int| 0 <= c < m1.cell_count() ==>
        (#[trigger] m1.tile_content@[c])@ == entities_at(recs, m0, c, recs.len() as int)
}

impl MapIdexingSystem {
    /// Afterwards a cell is blocked exactly when it is a wall or a blocking entity
    /// stands on it, and each cell lists the entities on it in id order.
    pub fn run(&mut self, world: &mut World)
        requires
            old(world).wf(),
        ensures
            final(world).wf(),
            final(world).entities == old(world).entities,
            final(world).player_entity == old(world).player_entity,
            final(world).rng == old(world).rng,
            final(world).player_pos == old(world).player_pos,
            final(world).run_state == old(world).run_state,
            final(world).log == old(world).log,
            map_indexed(old(world).entities@, old(world).map, final(world).map),
    {
        world.map.populate_blocked();
        world.map.clear_content_index();
        let ghost map0 = world.map;
        let n = world.entities.len();
        let mut id: usize = 0;
        while id < n
            invariant
                world.wf(),
                n == world.entities@.len(),
                id <= n,
                world.entities == old(world).entities,
                world.player_entity == old(world).player_entity,
                world.rng == old(world).rng,
                world.player_pos == old(world).player_pos,
                world.run_state == old(world).run_state,
                world.log == old(world).log,
                world.map.tiles == old(world).map.tiles,
                world.map.rooms == old(world).map.rooms,
                world.map.width == old(world).map.width,
                world.map.height == old(world).map.height,
                world.map.revealed_tiles == old(world).map.revealed_tiles,
                world.map.visible_tiles == old(world).map.visible_tiles,
                forall|c: int| 0 <= c < world.map.cell_count() ==>
                    (#[trigger] world.map.blocked@[c]) == (old(world).map.tiles@[c] == TileType::Wall
                        || blocker_at(world.entities@, old(world).map, c, id as int)),
                forall|c: int| 0 <= c < world.map.cell_count() ==>
                    (#[trigger] world.map.tile_content@[c])@
                        == entities_at(world.entities@, old(world).map, c, id as int),
            decreases n - id,
        {
            let ghost before = world.map;
            proof { lemma_record_at(world.entities@, world.map.width as int, world.map.height as int, id as int); }
            if let Some(pos) = world.entities[id].position {
                let idx = world.map.xy_idx(pos.x, pos.y);
                if world.entities[id].block_tile {
                    world.map.blocked.set(idx, true);
                }
                world.map.tile_content[idx].push(Entity(id));
            }
            proof {
                assert forall|c: int| 0 <= c < world.map.cell_count() implies
                    (#[trigger] world.map.blocked@[c]) == (old(world).map.tiles@[c] == TileType::Wall
                        || blocker_at(world.entities@, old(world).map, c, id + 1)) by {
                    if blocker_at(world.entities@, old(world).map, c, id as int) {
                        let j = choose|j: int| 0 <= j < id && (#[trigger] world.entities@[j]).block_tile
                            && world.entities@[j].position is Some
                            && cell_of(old(world).map, world.entities@[j]) == c;
                        assert(0 <= j < id + 1);
                    }
                    if blocker_at(world.entities@, old(world).map, c, id + 1) {
                        let j = choose|j: int| 0 <= j < id + 1 && (#[trigger] world.entities@[j]).block_tile
                            && world.entities@[j].position is Some
                            && cell_of(old(world).map, world.entities@[j]) == c;
                        if j < id {
                            assert(blocker_at(world.entities@, old(world).map, c, id as int));
                        }
                    }
                }
            }
            id = id + 1;
        }
    }
}

} // verus!
