//! The order in which entities are drawn.

use vstd::prelude::*;
use crate::components::{Entity, Position, Renderable};
use crate::world::{lemma_record_at, EntityRecord, World};
use crate::map::GameMap;

verus! {

/// One entity to draw: where, and how.
#[derive(Clone, Copy, PartialEq, Eq, Structural, Debug)]
pub struct DrawItem {
    pub entity: Entity,
    pub position: Position,
    pub renderable: Renderable,
}

/// The record is drawn: it has a position and a look, and its cell is in view.
pub open spec fn drawn(map: GameMap, r: EntityRecord) -> bool {
    &&& r.position is Some
    &&& r.renderable is Some
    &&& map.visible_tiles@[map.idx(r.position.unwrap().x as int, r.position.unwrap().y as int)]
}

/// `a` is drawn before `b`: a higher layer first, and within a layer in id order.
pub open spec fn draws_before(a: DrawItem, b: DrawItem) -> bool {
    a.renderable.render_order > b.renderable.render_order
        || (a.renderable.render_order == b.renderable.render_order && a.entity.0 < b.entity.0)
}

/// The item shows record `e` as it is.
pub open spec fn shows(recs: Seq<EntityRecord>, item: DrawItem) -> bool {
    &&& item.entity.0 < recs.len()
    &&& item.position == recs[item.entity.0 as int].position.unwrap()
    &&& item.renderable == recs[item.entity.0 as int].renderable.unwrap()
}

/// `items` lists, in drawing order, exactly the drawn records among the first `k`.
pub open spec fn draw_list(map: GameMap, recs: Seq<EntityRecord>, k: int, items: Seq<DrawItem>) -> bool {
    &&& forall|i: int, j: int| 0 <= i < j < items.len() ==> draws_before(#[trigger] items[i], #[trigger] items[j])
    &&& forall|i: int| 0 <= i < items.len() ==> {
            &&& shows(recs, #[trigger] items[i])
            &&& items[i].entity.0 < k
            &&& drawn(map, recs[items[i].entity.0 as int])
        }
    &&& forall|e: int| 0 <= e < k && drawn(map, #[trigger] recs[e])
            ==> exists|i: int| 0 <= i < items.len() && (#[trigger] items[i]).entity.0 == e
}

/// The entities to draw, in drawing order: every entity with a position and a look
/// whose cell is in view, sorted by decreasing layer, and by id within a layer (a
/// stable sort of them in id order). Later items are drawn over earlier ones.
pub fn draw_order(world: &World) -> (items: Vec<DrawItem>)
    requires
        world.wf(),
    ensures
        draw_list(world.map, world.entities@, world.entities@.len() as int, items@),
{
    let ghost recs = world.entities@;
    let n = world.entities.len();
    let mut items: Vec<DrawItem> = Vec::new();
    let mut e: usize = 0;
    while e < n
        invariant
            world.wf(),
            recs == world.entities@,
            n == recs.len(),
            e <= n,
            draw_list(world.map, recs, e as int, items@),
        decreases n - e,
    {
        proof { lemma_record_at(recs, world.map.width as int, world.map.height as int, e as int); }
        if let (Some(pos), Some(rend)) = (world.entities[e].position, world.entities[e].renderable) {
            let idx = world.map.xy_idx(pos.x, pos.y);
            if world.map.visible_tiles[idx] {
                let item = DrawItem { entity: Entity(e), position: pos, renderable: rend };
                let len = items.len();
                let mut k: usize = 0;
                while k < len && items[k].renderable.render_order >= rend.render_order
                    invariant
                        len == items@.len(),
                        k <= len,
                        forall|j: int| 0 <= j < k ==> items@[j].renderable.render_order >= rend.render_order,
                    decreases len - k,
                {
                    k = k + 1;
                }
                let ghost old_items = items@;
                assert(forall|j: int| 0 <= j < old_items.len() ==> (#[trigger] old_items[j]).entity.0 < e);
                assert(k < len ==> old_items[k as int].renderable.render_order < rend.render_order);
                assert forall|j: int| k <= j < old_items.len() implies
                    (#[trigger] old_items[j]).renderable.render_order < rend.render_order by {
                    if j > k {
                        assert(draws_before(old_items[k as int], old_items[j]));
                    }
                }
                items.insert(k, item);
                assert forall|i: int, j: int| 0 <= i < j < items@.len() implies
                    draws_before(#[trigger] items@[i], #[trigger] items@[j]) by {
                    if j < k {
                        assert(items@[i] == old_items[i] && items@[j] == old_items[j]);
                    } else if j == k {
                        assert(items@[i] == old_items[i]);
                    } else if i < k {
                        assert(items@[i] == old_items[i] && items@[j] == old_items[j - 1]);
                    } else if i == k {
                        assert(items@[j] == old_items[j - 1]);
                    } else {
                        assert(items@[i] == old_items[i - 1] && items@[j] == old_items[j - 1]);
                    }
                }
                assert forall|x: int| 0 <= x < e + 1 && drawn(world.map, #[trigger] recs[x])
                    implies exists|i: int| 0 <= i < items@.len() && (#[trigger] items@[i]).entity.0 == x by {
                    if x < e {
                        let i0 = choose|i: int| 0 <= i < old_items.len() && (#[trigger] old_items[i]).entity.0 == x;
                        if i0 < k {
                            assert(items@[i0] == old_items[i0]);
                        } else {
                            assert(items@[i0 + 1] == old_items[i0]);
                        }
                    } else {
                        assert(items@[k as int].entity.0 == x);
                    }
                }
                assert forall|i: int| 0 <= i < items@.len() implies {
                    &&& shows(recs, #[trigger] items@[i])
                    &&& items@[i].entity.0 < e + 1
                    &&& drawn(world.map, recs[items@[i].entity.0 as int])
                } by {
                    if i < k {
                        assert(items@[i] == old_items[i]);
                    } else if i > k {
                        assert(items@[i] == old_items[i - 1]);
                    }
                }
            }
        }
        e = e + 1;
    }
    items
}

} // verus!
