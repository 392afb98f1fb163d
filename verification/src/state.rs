//! The game state and its turn loop: which systems run in which turn, what key
//! presses and menu choices lead to, and what is drawn in which order.

use vstd::prelude::*;
use crate::components::{Entity, WantsToDrinkPotion, WantsToDropItem};
use crate::damage_system::{damage_ok, damaged, damage_fits, death_messages, is_dying, DamageSystem};
use crate::inventory_system::{
    after_drinking, after_drop, collected, drink_messages, drinks_ok, drinks_ready, drop_messages, drop_ok,
    drop_ready, last_pickup, pickup_messages, pickups_ok, pickups_ready, ItemCollectionSystem, ItemDropSystem,
    ItemUseSystem,
};
use crate::map_indexing_system::{map_indexed, MapIdexingSystem};
use crate::player::{
    action_of_key, get_item_ok, get_item_ready, input_handled, key_action, key_run_state, player_input, Key,
    PlayerAction,
};
use crate::world::{lemma_record_at, lemma_records_wf_update, RunState};
use crate::world::{bare_record, EntityRecord, World};

verus! {

pub struct State {
    pub ecs: World,
}

/// How the player answered an item menu.
#[derive(Clone, Copy, PartialEq, Eq, Structural, Debug)]
pub enum ItemMenuResult {
    Cancel,
    NoResponse,
    Selected,
}

/// The records after this turn's damage.
pub open spec fn damage_stage(r: Seq<EntityRecord>) -> Seq<EntityRecord> {
    Seq::new(r.len(), |i: int| damaged(r[i]))
}

/// The records after the pickups.
pub open spec fn pickup_stage(r: Seq<EntityRecord>) -> Seq<EntityRecord> {
    Seq::new(r.len(), |x: int| EntityRecord {
        wants_to_pickup: None,
        ..collected(r[x], last_pickup(r, Entity(x as usize), r.len() as int))
    })
}

/// The records after the potions are drunk.
pub open spec fn drink_stage(r: Seq<EntityRecord>) -> Seq<EntityRecord> {
    Seq::new(r.len(), |x: int| after_drinking(r, x))
}

/// The records after the player's drop.
pub open spec fn drop_stage(r: Seq<EntityRecord>, player: Entity) -> Seq<EntityRecord> {
    Seq::new(r.len(), |x: int| after_drop(r, player, x))
}

/// The records after the deferred deletions.
pub open spec fn maintained(r: Seq<EntityRecord>) -> Seq<EntityRecord> {
    Seq::new(r.len(), |x: int| if r[x].doomed { bare_record(false) } else { r[x] })
}

/// The records after the dead are removed.
pub open spec fn reaped(r: Seq<EntityRecord>) -> Seq<EntityRecord> {
    Seq::new(r.len(), |x: int| if is_dying(r[x]) { bare_record(false) } else { r[x] })
}

/// The systems of a turn can run without failing: damage sums fit, pickups name
/// existing items, drinks fit and name their potions, and the player's drop is possible,
/// each checked on the records as the systems before it leave them.
pub open spec fn systems_ready(w: World) -> bool {
    let r0 = w.entities@;
    let r1 = damage_stage(r0);
    let r2 = pickup_stage(r1);
    let r3 = drink_stage(r2);
    &&& forall|i: int| 0 <= i < r0.len() ==> damage_fits(#[trigger] r0[i])
    &&& pickups_ready(r1, w.player_entity)
    &&& drinks_ready(r2, w.player_entity)
    &&& drop_ready(r3, w.player_entity)
}

/// What `run_systems` does: the map index is rebuilt, then damage, pickups, drinks and
/// the player's drop are applied in turn, the deferred deletions are carried out, and
/// the log gains the pickup, drink and drop lines in that order.
pub open spec fn systems_ran(w0: World, w1: World) -> bool {
    let r0 = w0.entities@;
    let r1 = damage_stage(r0);
    let r2 = pickup_stage(r1);
    let r3 = drink_stage(r2);
    let r4 = drop_stage(r3, w0.player_entity);
    let n = r0.len() as int;
    &&& w1.entities@ == maintained(r4)
    &&& map_indexed(r0, w0.map, w1.map)
    &&& w1.log.lines() == w0.log.lines() + pickup_messages(r1, w0.player_entity, n)
            + drink_messages(r2, w0.player_entity, n) + drop_messages(r3, w0.player_entity)
    &&& w1.player_entity == w0.player_entity
    &&& w1.rng == w0.rng
    &&& w1.player_pos == w0.player_pos
    &&& w1.run_state == w0.run_state
}

impl State {
    /// Runs the systems that follow the monsters' decisions in a turn: map indexing,
    /// damage, item pickup, potion use and item drop, then world maintenance.
    ///
    /// Field of view and melee resolution are not part of this pass: their rules are
    /// not defined in this library. So a pass fills no viewshed, and it turns no
    /// `WantsToMelee` intent into damage; only `SufferDamage` already recorded is applied.
    pub fn run_systems(&mut self)
        requires
            old(self).ecs.wf(),
            systems_ready(old(self).ecs),
        ensures
            final(self).ecs.wf(),
            systems_ran(old(self).ecs, final(self).ecs),
    {
        let ok = self.run_systems_checked();
        assert(ok);
    }

    /// Runs the same systems, checking before each one that it can run. It returns
    /// false, having stopped part-way, exactly when a system could not run (where the
    /// systems would fail: an overflow, or a missing entity or name).
    pub fn run_systems_checked(&mut self) -> (ok: bool)
        requires
            old(self).ecs.wf(),
        ensures
            final(self).ecs.wf(),
            ok == systems_ready(old(self).ecs),
            ok ==> systems_ran(old(self).ecs, final(self).ecs),
    {
        let ghost r0 = self.ecs.entities@;
        let ghost player = self.ecs.player_entity;
        let ghost r1 = damage_stage(r0);
        let ghost r2 = pickup_stage(r1);
        let ghost r3 = drink_stage(r2);
        let ghost r4 = drop_stage(r3, player);
        let mut map_index = MapIdexingSystem {};
        map_index.run(&mut self.ecs);
        let ghost map1 = self.ecs.map;
        if !damage_ok(&self.ecs) {
            return false;
        }
        let mut damage = DamageSystem {};
        damage.run(&mut self.ecs);
        assert(self.ecs.entities@ =~= r1);
        if !pickups_ok(&self.ecs) {
            return false;
        }
        let mut pickup = ItemCollectionSystem {};
        pickup.run(&mut self.ecs);
        assert(self.ecs.entities@ =~= r2);
        if !drinks_ok(&self.ecs) {
            return false;
        }
        let mut potions = ItemUseSystem {};
        potions.run(&mut self.ecs);
        assert(self.ecs.entities@ =~= r3);
        if !drop_ok(&self.ecs) {
            return false;
        }
        let mut drops = ItemDropSystem {};
        drops.run(&mut self.ecs);
        assert(self.ecs.entities@ =~= r4);
        self.ecs.maintain();
        assert(self.ecs.entities@ =~= maintained(r4));
        assert(self.ecs.map == map1);
        true
    }
}

/// The run state after the systems have run in `rs`.
pub open spec fn after_systems(rs: RunState) -> RunState {
    match rs {
        RunState::PlayerTurn => RunState::MonsterTurn,
        _ => RunState::AwaitingInput,
    }
}

/// The run state an item menu leads to.
pub open spec fn menu_next(rs: RunState, result: ItemMenuResult) -> RunState {
    match result {
        ItemMenuResult::Cancel => RunState::AwaitingInput,
        ItemMenuResult::NoResponse => rs,
        ItemMenuResult::Selected => RunState::PlayerTurn,
    }
}

/// The record of `player` with the intent that the menu in `rs` records for `item`:
/// drinking it from the inventory, dropping it from the drop menu.
pub open spec fn with_menu_intent(r: EntityRecord, rs: RunState, item: Entity) -> EntityRecord {
    if rs == RunState::ShowInventory {
        EntityRecord { wants_to_drink: Some(WantsToDrinkPotion { potion: item }), ..r }
    } else {
        EntityRecord { wants_to_drop: Some(WantsToDropItem { item: item }), ..r }
    }
}

/// What answering an item menu does to the world.
pub open spec fn menu_applied(w0: World, w1: World, menu: (ItemMenuResult, Option<Entity>)) -> bool {
    if menu.0 == ItemMenuResult::Selected {
        &&& w1.entities@ == w0.entities@.update(w0.player_entity.0 as int,
                with_menu_intent(w0.rec(w0.player_entity), w0.run_state, menu.1.unwrap()))
        &&& w1.map == w0.map
        &&& w1.log == w0.log
        &&& w1.player_entity == w0.player_entity
        &&& w1.rng == w0.rng
        &&& w1.player_pos == w0.player_pos
        &&& w1.run_state == w0.run_state
    } else {
        w1 == w0
    }
}

/// The end of every tick: the run state is stored and the dead are removed.
pub open spec fn reaped_into(wm: World, w1: World, rs: RunState) -> bool {
    &&& w1.entities@ == reaped(wm.entities@)
    &&& w1.log.lines() == wm.log.lines() + death_messages(wm.entities@, wm.entities@.len() as int)
    &&& w1.map == wm.map
    &&& w1.player_entity == wm.player_entity
    &&& w1.rng == wm.rng
    &&& w1.player_pos == wm.player_pos
    &&& w1.run_state == rs
}

/// A tick can run without failing in the current run state.
pub open spec fn tick_ready(w: World, key: Option<Key>, menu: (ItemMenuResult, Option<Entity>)) -> bool {
    match w.run_state {
        RunState::PreRun | RunState::PlayerTurn | RunState::MonsterTurn => systems_ready(w),
        RunState::AwaitingInput => key_action(key) == PlayerAction::PickUp ==> get_item_ready(w),
        RunState::ShowInventory | RunState::ShowDropItem =>
            menu.0 == ItemMenuResult::Selected ==> menu.1 is Some && w.is_alive(w.player_entity),
    }
}

/// What a tick does, by run state: run the systems and move on; handle a key press;
/// or act on the item menu's answer. In every case the new run state is stored and
/// the dead are removed.
pub open spec fn ticked(w0: World, w1: World, key: Option<Key>, menu: (ItemMenuResult, Option<Entity>)) -> bool {
    match w0.run_state {
        RunState::PreRun | RunState::PlayerTurn | RunState::MonsterTurn =>
            exists|wm: World| systems_ran(w0, wm) && #[trigger] reaped_into(wm, w1, after_systems(w0.run_state)),
        RunState::AwaitingInput =>
            exists|wm: World| input_handled(w0, wm, key) && #[trigger] reaped_into(wm, w1, key_run_state(key)),
        RunState::ShowInventory | RunState::ShowDropItem =>
            exists|wm: World| menu_applied(w0, wm, menu) && #[trigger] reaped_into(wm, w1, menu_next(w0.run_state, menu.0)),
    }
}

impl State {
    /// Records the player's intent from an item menu answer.
    fn apply_menu(&mut self, menu: (ItemMenuResult, Option<Entity>)) -> (rs: RunState)
        requires
            old(self).ecs.wf(),
            old(self).ecs.run_state == RunState::ShowInventory || old(self).ecs.run_state == RunState::ShowDropItem,
            menu.0 == ItemMenuResult::Selected ==> menu.1 is Some && old(self).ecs.is_alive(old(self).ecs.player_entity),
        ensures
            final(self).ecs.wf(),
            menu_applied(old(self).ecs, final(self).ecs, menu),
            rs == menu_next(old(self).ecs.run_state, menu.0),
    {
        match menu.0 {
            ItemMenuResult::Cancel => RunState::AwaitingInput,
            ItemMenuResult::NoResponse => self.ecs.run_state,
            ItemMenuResult::Selected => {
                let item_entity = menu.1.unwrap();
                let p = self.ecs.player_entity.0;
                let ghost before = self.ecs.entities@;
                proof { lemma_record_at(before, self.ecs.map.width as int, self.ecs.map.height as int, p as int); }
                if self.ecs.run_state == RunState::ShowInventory {
                    self.ecs.entities[p].wants_to_drink = Some(WantsToDrinkPotion { potion: item_entity });
                } else {
                    self.ecs.entities[p].wants_to_drop = Some(WantsToDropItem { item: item_entity });
                }
                proof {
                    lemma_records_wf_update(before, self.ecs.map.width as int, self.ecs.map.height as int,
                        p as int, self.ecs.entities@[p as int]);
                }
                RunState::PlayerTurn
            },
        }
    }

    /// One turn of the game loop after drawing (and after the monsters' decisions when
    /// the systems run): acts on the run state, stores the next one, removes the dead.
    pub fn tick(&mut self, key: Option<Key>, menu: (ItemMenuResult, Option<Entity>))
        requires
            old(self).ecs.wf(),
            tick_ready(old(self).ecs, key, menu),
        ensures
            final(self).ecs.wf(),
            ticked(old(self).ecs, final(self).ecs, key, menu),
    {
        let ok = self.try_tick(key, menu);
        assert(ok);
    }

    /// The same turn, checking first that it can run. It returns false, having stopped
    /// part-way, exactly when the turn cannot run (where it would fail).
    pub fn try_tick(&mut self, key: Option<Key>, menu: (ItemMenuResult, Option<Entity>)) -> (ok: bool)
        requires
            old(self).ecs.wf(),
        ensures
            final(self).ecs.wf(),
            ok == tick_ready(old(self).ecs, key, menu),
            ok ==> ticked(old(self).ecs, final(self).ecs, key, menu),
    {
        let ghost w0 = self.ecs;
        let new_run_state = match self.ecs.run_state {
            RunState::PreRun | RunState::PlayerTurn | RunState::MonsterTurn => {
                let next = if self.ecs.run_state == RunState::PlayerTurn {
                    RunState::MonsterTurn
                } else {
                    RunState::AwaitingInput
                };
                if !self.run_systems_checked() {
                    return false;
                }
                let ghost before = self.ecs.entities@;
                self.ecs.maintain();
                assert(self.ecs.entities@ =~= before);
                next
            },
            RunState::AwaitingInput => {
                if action_of_key(key) == PlayerAction::PickUp && !get_item_ok(&self.ecs) {
                    return false;
                }
                player_input(self, key)
            },
            RunState::ShowInventory | RunState::ShowDropItem => {
                if menu.0 == ItemMenuResult::Selected {
                    let p = self.ecs.player_entity.0;
                    if menu.1.is_none() || p >= self.ecs.entities.len() || !self.ecs.entities[p].alive {
                        return false;
                    }
                }
                self.apply_menu(menu)
            },
        };
        let ghost wm = self.ecs;
        self.ecs.run_state = new_run_state;
        DamageSystem::delete_the_dead(&mut self.ecs);
        assert(self.ecs.entities@ =~= reaped(wm.entities@));
        assert(reaped_into(wm, self.ecs, new_run_state));
        true
    }
}
} // verus!
