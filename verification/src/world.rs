//! The world: a table of entities with their components, and the shared resources
//! (map, player, run state, game log, random number generator).

use vstd::prelude::*;
use rltk::RandomNumberGenerator;
use crate::components::{
    CombatStats, Entity, InBackpack, Point, Position, Potion, Renderable, SufferDamage, Viewshed,
    WantsToDrinkPotion, WantsToDropItem, WantsToMelee, WantsToPickupItem,
};
use crate::map::GameMap;

verus! {

/// Where the turn-based game loop stands.
#[derive(Clone, Copy, PartialEq, Eq, Structural, Debug)]
pub enum RunState {
    AwaitingInput,
    PreRun,
    PlayerTurn,
    MonsterTurn,
    ShowInventory,
    ShowDropItem,
}

/// The messages shown to the player, oldest first.
pub struct GameLog {
    pub entries: Vec<String>,
}

impl GameLog {
    /// The messages as character sequences.
    pub open spec fn lines(&self) -> Seq<Seq<char>> {
        self.entries@.map_values(|s: String| s@)
    }
}

/// One entity and every component it carries. Marker components are flags.
/// A record that a system deleted stays `alive` and `doomed` until the next
/// `World::maintain`, as deletion is deferred until then.
pub struct EntityRecord {
    pub alive: bool,
    pub doomed: bool,
    pub position: Option<Position>,
    pub renderable: Option<Renderable>,
    pub player: bool,
    pub viewshed: Option<Viewshed>,
    pub monster: bool,
    pub name: Option<String>,
    pub block_tile: bool,
    pub combat_stats: Option<CombatStats>,
    pub wants_to_melee: Option<WantsToMelee>,
    pub suffer_damage: Option<SufferDamage>,
    pub item: bool,
    pub potion: Option<Potion>,
    pub in_backpack: Option<InBackpack>,
    pub wants_to_pickup: Option<WantsToPickupItem>,
    pub wants_to_drink: Option<WantsToDrinkPotion>,
    pub wants_to_drop: Option<WantsToDropItem>,
    pub consumable: bool,
}

/// A record with no components; `alive` says whether its entity exists.
pub open spec fn bare_record(alive: bool) -> EntityRecord {
    EntityRecord {
        alive: alive,
        doomed: false,
        position: None,
        renderable: None,
        player: false,
        viewshed: None,
        monster: false,
        name: None,
        block_tile: false,
        combat_stats: None,
        wants_to_melee: None,
        suffer_damage: None,
        item: false,
        potion: None,
        in_backpack: None,
        wants_to_pickup: None,
        wants_to_drink: None,
        wants_to_drop: None,
        consumable: false,
    }
}

pub fn new_bare_record(alive: bool) -> (r: EntityRecord)
    ensures
        r == bare_record(alive),
{
    EntityRecord {
        alive: alive,
        doomed: false,
        position: None,
        renderable: None,
        player: false,
        viewshed: None,
        monster: false,
        name: None,
        block_tile: false,
        combat_stats: None,
        wants_to_melee: None,
        suffer_damage: None,
        item: false,
        potion: None,
        in_backpack: None,
        wants_to_pickup: None,
        wants_to_drink: None,
        wants_to_drop: None,
        consumable: false,
    }
}

/// The record's position, if any, lies on a `width` by `height` map.
pub open spec fn placed_within(r: EntityRecord, width: int, height: int) -> bool {
    r.position is Some ==> {
        &&& 0 <= r.position.unwrap().x < width
        &&& 0 <= r.position.unwrap().y < height
    }
}

/// What the world asks of one record: a dead one carries nothing, a placed one is on the map.
pub open spec fn record_wf(r: EntityRecord, width: int, height: int) -> bool {
    &&& !r.alive ==> r == bare_record(false)
    &&& placed_within(r, width, height)
}

/// Every record of the table is well formed.
#[verifier::opaque]
pub open spec fn records_wf(recs: Seq<EntityRecord>, width: int, height: int) -> bool {
    forall|i: int| 0 <= i < recs.len() ==> record_wf(#[trigger] recs[i], width, height)
}

/// One record of a well-formed table is well formed.
pub proof fn lemma_record_at(recs: Seq<EntityRecord>, width: int, height: int, i: int)
    requires
        records_wf(recs, width, height),
        0 <= i < recs.len(),
    ensures
        record_wf(recs[i], width, height),
{
    reveal(records_wf);
}

/// Replacing one record by a well-formed one keeps the table well formed.
pub proof fn lemma_records_wf_update(recs: Seq<EntityRecord>, width: int, height: int, i: int, r: EntityRecord)
    requires
        records_wf(recs, width, height),
        0 <= i < recs.len(),
        record_wf(r, width, height),
    ensures
        records_wf(recs.update(i, r), width, height),
{
    reveal(records_wf);
    assert forall|j: int| 0 <= j < recs.len() implies record_wf(#[trigger] recs.update(i, r)[j], width, height) by {
        if j != i {
            assert(record_wf(recs[j], width, height));
        }
    }
}

/// Appending a well-formed record keeps the table well formed.
pub proof fn lemma_records_wf_push(recs: Seq<EntityRecord>, width: int, height: int, r: EntityRecord)
    requires
        records_wf(recs, width, height),
        record_wf(r, width, height),
    ensures
        records_wf(recs.push(r), width, height),
{
    reveal(records_wf);
    assert forall|j: int| 0 <= j < recs.len() + 1 implies record_wf(#[trigger] recs.push(r)[j], width, height) by {
        if j < recs.len() {
            assert(record_wf(recs[j], width, height));
        }
    }
}

pub struct World {
    pub entities: Vec<EntityRecord>,
    pub map: GameMap,
    pub player_entity: Entity,
    pub player_pos: Point,
    pub run_state: RunState,
    pub log: GameLog,
    pub rng: RandomNumberGenerator,
}

impl World {
    pub open spec fn len(&self) -> int {
        self.entities@.len() as int
    }

    /// The record of entity `e`.
    pub open spec fn rec(&self, e: Entity) -> EntityRecord {
        self.entities@[e.0 as int]
    }

    /// `e` names an entity that exists.
    pub open spec fn is_alive(&self, e: Entity) -> bool {
        e.0 < self.entities@.len() && self.entities@[e.0 as int].alive
    }

    /// The world is consistent: the map is well formed, dead entities carry nothing,
    /// and every positioned entity, like the player-position resource, lies on the map.
    pub open spec fn wf(&self) -> bool {
        &&& self.map.wf()
        &&& self.entities@.len() < usize::MAX
        &&& records_wf(self.entities@, self.map.width as int, self.map.height as int)
        &&& self.map.in_bounds(self.player_pos.x as int, self.player_pos.y as int)
    }

    /// A world with the given map and generator and no entities yet.
    pub fn new(map: GameMap, rng: RandomNumberGenerator) -> (w: World)
        requires
            map.wf(),
        ensures
            w.wf(),
            w.entities@.len() == 0,
            w.map == map,
            w.player_entity == Entity(0),
            w.player_pos == (Point { x: 0, y: 0 }),
            w.run_state == RunState::PreRun,
            w.log.entries@.len() == 0,
            w.rng == rng,
    {
        proof { reveal(records_wf); }
        World {
            entities: Vec::new(),
            map,
            player_entity: Entity(0),
            player_pos: Point { x: 0, y: 0 },
            run_state: RunState::PreRun,
            log: GameLog { entries: Vec::new() },
            rng,
        }
    }

    /// Adds an entity with no components and returns it.
    pub fn create_entity(&mut self) -> (e: Entity)
        requires
            old(self).wf(),
            old(self).entities@.len() + 1 < usize::MAX,
        ensures
            final(self).wf(),
            e.0 == old(self).entities@.len(),
            final(self).entities@ == old(self).entities@.push(bare_record(true)),
            final(self).map == old(self).map,
            final(self).player_entity == old(self).player_entity,
            final(self).rng == old(self).rng,
            final(self).player_pos == old(self).player_pos,
            final(self).run_state == old(self).run_state,
            final(self).log == old(self).log,
    {
        let e = Entity(self.entities.len());
        proof { lemma_records_wf_push(self.entities@, self.map.width as int, self.map.height as int, bare_record(true)); }
        self.entities.push(new_bare_record(true));
        e
    }

    /// Adds an entity made of the components in `r` and returns it.
    pub fn build_entity(&mut self, r: EntityRecord) -> (e: Entity)
        requires
            old(self).wf(),
            old(self).entities@.len() + 1 < usize::MAX,
            r.alive,
            placed_within(r, old(self).map.width as int, old(self).map.height as int),
        ensures
            final(self).wf(),
            e.0 == old(self).entities@.len(),
            final(self).entities@ == old(self).entities@.push(r),
            final(self).map == old(self).map,
            final(self).player_entity == old(self).player_entity,
            final(self).rng == old(self).rng,
            final(self).player_pos == old(self).player_pos,
            final(self).run_state == old(self).run_state,
            final(self).log == old(self).log,
    {
        let e = Entity(self.entities.len());
        proof { lemma_records_wf_push(self.entities@, self.map.width as int, self.map.height as int, r); }
        self.entities.push(r);
        e
    }

    /// Deletes a living entity at once, with all its components.
    pub fn delete_entity(&mut self, e: Entity)
        requires
            old(self).wf(),
            old(self).is_alive(e),
        ensures
            final(self).wf(),
            final(self).entities@ == old(self).entities@.update(e.0 as int, bare_record(false)),
            final(self).map == old(self).map,
            final(self).player_entity == old(self).player_entity,
            final(self).rng == old(self).rng,
            final(self).player_pos == old(self).player_pos,
            final(self).run_state == old(self).run_state,
            final(self).log == old(self).log,
    {
        proof { lemma_records_wf_update(self.entities@, self.map.width as int, self.map.height as int, e.0 as int, bare_record(false)); }
        self.entities.set(e.0, new_bare_record(false));
    }

    /// Carries out the deferred deletions: every doomed entity is removed.
    pub fn maintain(&mut self)
        requires
            old(self).wf(),
        ensures
            final(self).wf(),
            final(self).entities@.len() == old(self).entities@.len(),
            forall|i: int| 0 <= i < old(self).entities@.len() ==>
                #[trigger] final(self).entities@[i] == (if old(self).entities@[i].doomed {
                    bare_record(false)
                } else {
                    old(self).entities@[i]
                }),
            forall|i: int| 0 <= i < final(self).entities@.len() ==> !(#[trigger] final(self).entities@[i]).doomed,
            final(self).map == old(self).map,
            final(self).player_entity == old(self).player_entity,
            final(self).rng == old(self).rng,
            final(self).player_pos == old(self).player_pos,
            final(self).run_state == old(self).run_state,
            final(self).log == old(self).log,
    {
        let n = self.entities.len();
        let mut i: usize = 0;
        while i < n
            invariant
                self.wf(),
                n == self.entities@.len(),
                n == old(self).entities@.len(),
                i <= n,
                forall|j: int| 0 <= j < i ==>
                    #[trigger] self.entities@[j] == (if old(self).entities@[j].doomed {
                        bare_record(false)
                    } else {
                        old(self).entities@[j]
                    }),
                forall|j: int| i <= j < n ==> #[trigger] self.entities@[j] == old(self).entities@[j],
                self.map == old(self).map,
                self.player_entity == old(self).player_entity,
                self.rng == old(self).rng,
                self.player_pos == old(self).player_pos,
                self.run_state == old(self).run_state,
                self.log == old(self).log,
            decreases n - i,
        {
            if self.entities[i].doomed {
                proof { lemma_records_wf_update(self.entities@, self.map.width as int, self.map.height as int, i as int, bare_record(false)); }
                self.entities.set(i, new_bare_record(false));
            }
            i = i + 1;
        }
    }
}

} // verus!
