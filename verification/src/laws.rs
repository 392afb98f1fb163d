//! Properties that hold across the turn loop as a whole.

use vstd::prelude::*;
use crate::components::{Entity, Point, Position, WantsToDropItem, WantsToPickupItem};
use crate::damage_system::{damaged, is_dying, prefix_sum, total};
use crate::inventory_system::{after_drinking, after_drop, alive_in, drinks, drop_ready, last_pickup, player_drop, pickups_ready};
use crate::monster_ai_system::{monster_acted, NavPath};
use crate::player::{
    after_move, first_fighter_from, first_stop, input_handled, is_mover, key_action, last_step, melee_target, moved,
    picked_up, step_position, steps, stops, Key, PlayerAction,
};
use crate::state::{
    damage_stage, drink_stage, drop_stage, maintained, menu_applied, pickup_stage, reaped, reaped_into,
    systems_ran, systems_ready, tick_ready, ticked, ItemMenuResult,
};
use crate::world::{bare_record, EntityRecord, RunState, World};

verus! {

/// No entity both lies on the map and sits in a backpack.
pub open spec fn placed_or_carried(recs: Seq<EntityRecord>) -> bool {
    forall|x: int| 0 <= x < recs.len() ==> !((#[trigger] recs[x]).position is Some && recs[x].in_backpack is Some)
}

/// Dead entities carry nothing (as `World::wf` demands).
pub open spec fn dead_are_bare(recs: Seq<EntityRecord>) -> bool {
    forall|x: int| 0 <= x < recs.len() && !(#[trigger] recs[x]).alive ==> recs[x] == bare_record(false)
}

proof fn lemma_pickup_input(w0: World, wm: World, key: Option<Key>)
    requires
        key_action(key) == PlayerAction::PickUp,
        input_handled(w0, wm, key),
    ensures
        picked_up(w0, wm),
{
}

proof fn lemma_stages_keep_placement(w0: World, w1: World)
    requires
        systems_ran(w0, w1),
        placed_or_carried(w0.entities@),
    ensures
        placed_or_carried(w1.entities@),
{
    let r0 = w0.entities@;
    let r1 = damage_stage(r0);
    let r2 = pickup_stage(r1);
    let r3 = drink_stage(r2);
    let r4 = drop_stage(r3, w0.player_entity);
    assert(placed_or_carried(r1));
    assert(placed_or_carried(r2));
    assert forall|x: int| 0 <= x < r3.len() implies !((#[trigger] r3[x]).position is Some && r3[x].in_backpack is Some) by {
        assert(r3[x].position == r2[x].position && r3[x].in_backpack == r2[x].in_backpack);
    }
    assert(placed_or_carried(r4));
    assert(placed_or_carried(maintained(r4)));
}

/// Running a turn's systems never leaves an entity both on the map and in a backpack:
/// a pickup takes the item off the map, a drop takes it out of the backpack.
pub proof fn law_systems_keep_items_placed_or_carried(w0: World, w1: World)
    requires
        w0.wf(),
        systems_ran(w0, w1),
        placed_or_carried(w0.entities@),
    ensures
        placed_or_carried(w1.entities@),
{
    lemma_stages_keep_placement(w0, w1);
}

/// A tick never leaves an entity both on the map and in a backpack.
pub proof fn law_tick_keeps_items_placed_or_carried(w0: World, w1: World, key: Option<Key>,
    menu: (ItemMenuResult, Option<Entity>))
    requires
        w0.wf(),
        tick_ready(w0, key, menu),
        ticked(w0, w1, key, menu),
        placed_or_carried(w0.entities@),
    ensures
        placed_or_carried(w1.entities@),
{
    match w0.run_state {
        RunState::PreRun | RunState::PlayerTurn | RunState::MonsterTurn => {
            let wm = choose|wm: World| systems_ran(w0, wm) && #[trigger] reaped_into(wm, w1, crate::state::after_systems(w0.run_state));
            lemma_stages_keep_placement(w0, wm);
        },
        RunState::AwaitingInput => {
            let wm = choose|wm: World| input_handled(w0, wm, key) && #[trigger] reaped_into(wm, w1, crate::player::key_run_state(key));
            match key_action(key) {
                PlayerAction::Move(dx, dy) => {
                    assert(input_handled(w0, wm, key));
                    assert(moved(w0, wm, dx, dy));
                    assert(wm.entities@.len() == w0.entities@.len());
                    assert forall|x: int| 0 <= x < wm.entities@.len() implies
                        !((#[trigger] wm.entities@[x]).position is Some && wm.entities@[x].in_backpack is Some) by {
                        assert(w0.entities@[x].position is Some && w0.entities@[x].in_backpack is Some ==> false);
                    }
                },
                PlayerAction::PickUp => {
                    lemma_pickup_input(w0, wm, key);
                    assert(wm.entities@.len() == w0.entities@.len());
                    assert forall|x: int| 0 <= x < wm.entities@.len() implies
                        !((#[trigger] wm.entities@[x]).position is Some && wm.entities@[x].in_backpack is Some) by {
                        assert(w0.entities@[x].position is Some && w0.entities@[x].in_backpack is Some ==> false);
                    }
                },
                _ => {},
            }
        },
        RunState::ShowInventory | RunState::ShowDropItem => {
            let wm = choose|wm: World| menu_applied(w0, wm, menu) && #[trigger] reaped_into(wm, w1, crate::state::menu_next(w0.run_state, menu.0));
            assert forall|x: int| 0 <= x < wm.entities@.len() implies
                !((#[trigger] wm.entities@[x]).position is Some && wm.entities@[x].in_backpack is Some) by {
                assert(w0.entities@[x].position is Some && w0.entities@[x].in_backpack is Some ==> false);
            }
        },
    }
}

/// The log only grows: a tick appends lines and never changes or drops earlier ones.
pub proof fn law_tick_only_appends_to_log(w0: World, w1: World, key: Option<Key>,
    menu: (ItemMenuResult, Option<Entity>))
    requires
        w0.wf(),
        tick_ready(w0, key, menu),
        ticked(w0, w1, key, menu),
    ensures
        w0.log.lines().len() <= w1.log.lines().len(),
        w1.log.lines().subrange(0, w0.log.lines().len() as int) == w0.log.lines(),
{
    let l0 = w0.log.lines();
    match w0.run_state {
        RunState::PreRun | RunState::PlayerTurn | RunState::MonsterTurn => {
            let wm = choose|wm: World| systems_ran(w0, wm) && #[trigger] reaped_into(wm, w1, crate::state::after_systems(w0.run_state));
            assert(w1.log.lines().subrange(0, l0.len() as int) =~= l0);
        },
        RunState::AwaitingInput => {
            let wm = choose|wm: World| input_handled(w0, wm, key) && #[trigger] reaped_into(wm, w1, crate::player::key_run_state(key));
            if key_action(key) == PlayerAction::PickUp {
                lemma_pickup_input(w0, wm, key);
            }
            assert(wm.log.lines().subrange(0, l0.len() as int) =~= l0);
            assert(w1.log.lines().subrange(0, l0.len() as int) =~= l0);
        },
        RunState::ShowInventory | RunState::ShowDropItem => {
            let wm = choose|wm: World| menu_applied(w0, wm, menu) && #[trigger] reaped_into(wm, w1, crate::state::menu_next(w0.run_state, menu.0));
            assert(w1.log.lines().subrange(0, l0.len() as int) =~= l0);
        },
    }
}

/// After every tick no entity other than the player is left with hit points below 1,
/// and the number of entity slots is unchanged (ticks create no entities, and deleted
/// entities keep their slot).
pub proof fn law_tick_leaves_no_dying_entity(w0: World, w1: World, key: Option<Key>,
    menu: (ItemMenuResult, Option<Entity>))
    requires
        w0.wf(),
        tick_ready(w0, key, menu),
        ticked(w0, w1, key, menu),
    ensures
        w1.entities@.len() == w0.entities@.len(),
        forall|x: int| 0 <= x < w1.entities@.len() ==> !is_dying(#[trigger] w1.entities@[x]),
{
    match w0.run_state {
        RunState::PreRun | RunState::PlayerTurn | RunState::MonsterTurn => {
            let wm = choose|wm: World| systems_ran(w0, wm) && #[trigger] reaped_into(wm, w1, crate::state::after_systems(w0.run_state));
        },
        RunState::AwaitingInput => {
            let wm = choose|wm: World| input_handled(w0, wm, key) && #[trigger] reaped_into(wm, w1, crate::player::key_run_state(key));
            if key_action(key) == PlayerAction::PickUp {
                lemma_pickup_input(w0, wm, key);
            }
        },
        RunState::ShowInventory | RunState::ShowDropItem => {
            let wm = choose|wm: World| menu_applied(w0, wm, menu) && #[trigger] reaped_into(wm, w1, crate::state::menu_next(w0.run_state, menu.0));
        },
    }
}

/// The turn cycle: the pre-run and the monsters' turn lead back to awaiting input,
/// and the player's turn to the monsters' turn; while awaiting input, a tick without a
/// key press changes nothing but removing the dead; an item menu returns to awaiting
/// input when cancelled and leads to the player's turn when an item is chosen.
pub proof fn law_turn_cycle(w0: World, w1: World, key: Option<Key>, menu: (ItemMenuResult, Option<Entity>))
    requires
        ticked(w0, w1, key, menu),
    ensures
        w0.run_state == RunState::PreRun ==> w1.run_state == RunState::AwaitingInput,
        w0.run_state == RunState::PlayerTurn ==> w1.run_state == RunState::MonsterTurn,
        w0.run_state == RunState::MonsterTurn ==> w1.run_state == RunState::AwaitingInput,
        w0.run_state == RunState::AwaitingInput && key is None ==> {
            &&& w1.run_state == RunState::AwaitingInput
            &&& w1.entities@ == reaped(w0.entities@)
            &&& w1.map == w0.map
            &&& w1.player_pos == w0.player_pos
        },
        (w0.run_state == RunState::ShowInventory || w0.run_state == RunState::ShowDropItem)
            && menu.0 == ItemMenuResult::Cancel ==> w1.run_state == RunState::AwaitingInput,
        (w0.run_state == RunState::ShowInventory || w0.run_state == RunState::ShowDropItem)
            && menu.0 == ItemMenuResult::Selected ==> w1.run_state == RunState::PlayerTurn,
{
    match w0.run_state {
        RunState::PreRun | RunState::PlayerTurn | RunState::MonsterTurn => {
            let wm = choose|wm: World| systems_ran(w0, wm) && #[trigger] reaped_into(wm, w1, crate::state::after_systems(w0.run_state));
        },
        RunState::AwaitingInput => {
            let wm = choose|wm: World| input_handled(w0, wm, key) && #[trigger] reaped_into(wm, w1, crate::player::key_run_state(key));
        },
        RunState::ShowInventory | RunState::ShowDropItem => {
            let wm = choose|wm: World| menu_applied(w0, wm, menu) && #[trigger] reaped_into(wm, w1, crate::state::menu_next(w0.run_state, menu.0));
        },
    }
}

/// Monsters only act in the monsters' turn: in any other run state a monster's action
/// changes nothing.
pub proof fn law_monsters_idle_outside_their_turn(w0: World, w1: World, e: Entity, path: Option<NavPath>)
    requires
        monster_acted(w0, w1, e, path),
        w0.run_state != RunState::MonsterTurn,
    ensures
        w1.entities@ == w0.entities@,
        w1.map == w0.map,
        w1.log == w0.log,
{
}

/// After a turn's systems no deletion is pending: every doomed entity is gone.
pub proof fn law_no_deletion_pending_after_systems(w0: World, w1: World)
    requires
        systems_ran(w0, w1),
    ensures
        forall|x: int| 0 <= x < w1.entities@.len() ==> !(#[trigger] w1.entities@[x]).doomed,
{
}

proof fn lemma_last_pickup_from(recs: Seq<EntityRecord>, x: Entity, k: int)
    requires
        0 <= k <= recs.len(),
    ensures
        last_pickup(recs, x, k) is Some ==> exists|j: int| 0 <= j < k
            && (#[trigger] recs[j]).wants_to_pickup == last_pickup(recs, x, k)
            && last_pickup(recs, x, k).unwrap().item == x,
    decreases k,
{
    if k > 0 {
        lemma_last_pickup_from(recs, x, k - 1);
    }
}

proof fn lemma_dead_records_pass_systems(w0: World, w1: World, x: int)
    requires
        w0.wf(),
        systems_ready(w0),
        systems_ran(w0, w1),
        0 <= x < w0.entities@.len(),
        !w0.entities@[x].alive,
    ensures
        w1.entities@[x] == bare_record(false),
{
    let r0 = w0.entities@;
    let p = w0.player_entity;
    let r1 = damage_stage(r0);
    let r2 = pickup_stage(r1);
    let r3 = drink_stage(r2);
    let r4 = drop_stage(r3, p);
    crate::world::lemma_record_at(r0, w0.map.width as int, w0.map.height as int, x);
    assert(r1[x] == bare_record(false));
    lemma_last_pickup_from(r1, Entity(x as usize), r1.len() as int);
    if last_pickup(r1, Entity(x as usize), r1.len() as int) is Some {
        let j = choose|j: int| 0 <= j < r1.len() as int
            && (#[trigger] r1[j]).wants_to_pickup == last_pickup(r1, Entity(x as usize), r1.len() as int)
            && last_pickup(r1, Entity(x as usize), r1.len() as int).unwrap().item == Entity(x as usize);
        assert(pickups_ready(r1, p));
        assert(alive_in(r1, Entity(x as usize)));
    }
    assert(r2[x] == bare_record(false));
    reveal(crate::inventory_system::drunk_by_any);
    assert(!crate::inventory_system::drunk_by_any(r2, Entity(x as usize), r2.len() as int));
    assert(!drinks(r2, r2[x]));
    assert(r3[x] == bare_record(false));
    assert(drop_ready(r3, p));
    assert(r4[x] == bare_record(false));
}

/// Deleted entities stay deleted: a tick never brings an entity back, and its slot
/// stays empty.
pub proof fn law_tick_keeps_dead_entities_dead(w0: World, w1: World, key: Option<Key>,
    menu: (ItemMenuResult, Option<Entity>), x: int)
    requires
        w0.wf(),
        tick_ready(w0, key, menu),
        ticked(w0, w1, key, menu),
        0 <= x < w0.entities@.len(),
        !w0.entities@[x].alive,
    ensures
        w1.entities@[x] == bare_record(false),
{
    crate::world::lemma_record_at(w0.entities@, w0.map.width as int, w0.map.height as int, x);
    match w0.run_state {
        RunState::PreRun | RunState::PlayerTurn | RunState::MonsterTurn => {
            let wm = choose|wm: World| systems_ran(w0, wm) && #[trigger] reaped_into(wm, w1, crate::state::after_systems(w0.run_state));
            lemma_dead_records_pass_systems(w0, wm, x);
        },
        RunState::AwaitingInput => {
            let wm = choose|wm: World| input_handled(w0, wm, key) && #[trigger] reaped_into(wm, w1, crate::player::key_run_state(key));
            if key_action(key) == PlayerAction::PickUp {
                lemma_pickup_input(w0, wm, key);
                assert(wm.entities@[x] == bare_record(false));
            }
        },
        RunState::ShowInventory | RunState::ShowDropItem => {
            let wm = choose|wm: World| menu_applied(w0, wm, menu) && #[trigger] reaped_into(wm, w1, crate::state::menu_next(w0.run_state, menu.0));
        },
    }
}

// ---------------------------------------------------------------- the run state

/// The pre-run state is only ever a start: no tick ends in it.
pub proof fn law_tick_never_returns_to_pre_run(w0: World, w1: World, key: Option<Key>,
    menu: (ItemMenuResult, Option<Entity>))
    requires
        ticked(w0, w1, key, menu),
    ensures
        w1.run_state != RunState::PreRun,
{
    match w0.run_state {
        RunState::PreRun | RunState::PlayerTurn | RunState::MonsterTurn => {
            let wm = choose|wm: World| systems_ran(w0, wm) && #[trigger] reaped_into(wm, w1, crate::state::after_systems(w0.run_state));
        },
        RunState::AwaitingInput => {
            let wm = choose|wm: World| input_handled(w0, wm, key) && #[trigger] reaped_into(wm, w1, crate::player::key_run_state(key));
        },
        RunState::ShowInventory | RunState::ShowDropItem => {
            let wm = choose|wm: World| menu_applied(w0, wm, menu) && #[trigger] reaped_into(wm, w1, crate::state::menu_next(w0.run_state, menu.0));
        },
    }
}

/// Every player turn is followed by exactly one monsters' turn before input is awaited
/// again: two ticks from the player's turn lead to the monsters' turn, then to awaiting input.
pub proof fn law_player_turn_then_monster_turn(w0: World, w1: World, w2: World, key1: Option<Key>,
    menu1: (ItemMenuResult, Option<Entity>), key2: Option<Key>, menu2: (ItemMenuResult, Option<Entity>))
    requires
        w0.run_state == RunState::PlayerTurn,
        ticked(w0, w1, key1, menu1),
        ticked(w1, w2, key2, menu2),
    ensures
        w1.run_state == RunState::MonsterTurn,
        w2.run_state == RunState::AwaitingInput,
{
    law_turn_cycle(w0, w1, key1, menu1);
    law_turn_cycle(w1, w2, key2, menu2);
}

// ---------------------------------------------------------------- monsters in a tick

/// No record is both a monster and a player.
pub open spec fn monsters_are_not_players(recs: Seq<EntityRecord>) -> bool {
    forall|x: int| 0 <= x < recs.len() && (#[trigger] recs[x]).monster ==> !recs[x].player
}

/// No pickup intent names a monster as its item.
pub open spec fn no_monster_picked_up(recs: Seq<EntityRecord>) -> bool {
    forall|j: int| 0 <= j < recs.len() && (#[trigger] recs[j]).wants_to_pickup is Some ==> {
        let e = recs[j].wants_to_pickup.unwrap().item.0 as int;
        e < recs.len() ==> !recs[e].monster
    }
}

/// The player's drop intent, if any, does not name a monster.
pub open spec fn no_monster_dropped(recs: Seq<EntityRecord>, player: Entity) -> bool {
    player_drop(recs, player) is Some ==> {
        let e = player_drop(recs, player).unwrap().item.0 as int;
        e < recs.len() ==> !recs[e].monster
    }
}

/// Every monster still alive stands where it stood, with the same attack intent.
pub open spec fn monsters_held_still(w0: World, w1: World) -> bool {
    forall|x: int| 0 <= x < w0.entities@.len() && w0.entities@[x].monster && (#[trigger] w1.entities@[x]).alive ==> {
        &&& w1.entities@[x].position == w0.entities@[x].position
        &&& w1.entities@[x].wants_to_melee == w0.entities@[x].wants_to_melee
    }
}

proof fn lemma_reaped_keeps_living(wm: World, w1: World, x: int)
    requires
        w1.entities@ == reaped(wm.entities@),
        0 <= x < wm.entities@.len(),
        w1.entities@[x].alive,
    ensures
        w1.entities@[x] == wm.entities@[x],
{
}

proof fn lemma_systems_keep_monster(w0: World, wm: World, x: int)
    requires
        systems_ran(w0, wm),
        no_monster_picked_up(w0.entities@),
        no_monster_dropped(w0.entities@, w0.player_entity),
        0 <= x < w0.entities@.len(),
        w0.entities@[x].monster,
        wm.entities@[x].alive,
    ensures
        wm.entities@[x].position == w0.entities@[x].position,
        wm.entities@[x].wants_to_melee == w0.entities@[x].wants_to_melee,
{
    let r0 = w0.entities@;
    let p = w0.player_entity;
    let n = r0.len() as int;
    let r1 = damage_stage(r0);
    let r2 = pickup_stage(r1);
    let r3 = drink_stage(r2);
    let r4 = drop_stage(r3, p);
    assert(n == w0.entities.len());
    assert(wm.entities@[x] == maintained(r4)[x]);
    assert(!r4[x].doomed);
    lemma_last_pickup_from(r1, Entity(x as usize), n);
    if last_pickup(r1, Entity(x as usize), n) is Some {
        let j = choose|j: int| 0 <= j < n
            && (#[trigger] r1[j]).wants_to_pickup == last_pickup(r1, Entity(x as usize), n)
            && last_pickup(r1, Entity(x as usize), n).unwrap().item == Entity(x as usize);
        assert(r0[j].wants_to_pickup == r1[j].wants_to_pickup);
        assert(!r0[x].monster);
    }
    assert(r2[x].position == r0[x].position && r2[x].wants_to_melee == r0[x].wants_to_melee);
    assert(r3[x].position == r0[x].position && r3[x].wants_to_melee == r0[x].wants_to_melee);
    if 0 <= p.0 < n {
        assert(r3[p.0 as int].alive == r0[p.0 as int].alive);
        assert(r3[p.0 as int].wants_to_drop == r0[p.0 as int].wants_to_drop);
    }
    assert(player_drop(r3, p) == player_drop(r0, p));
}

/// Monsters hold still in a tick that does not begin in the monsters' turn: every
/// monster still alive afterwards stands where it stood and has gained no attack
/// intent. This holds where no monster is also the player, is picked up, or is the
/// player's drop.
pub proof fn law_monsters_hold_still_outside_their_turn(w0: World, w1: World, key: Option<Key>,
    menu: (ItemMenuResult, Option<Entity>))
    requires
        w0.wf(),
        tick_ready(w0, key, menu),
        ticked(w0, w1, key, menu),
        w0.run_state != RunState::MonsterTurn,
        monsters_are_not_players(w0.entities@),
        no_monster_picked_up(w0.entities@),
        no_monster_dropped(w0.entities@, w0.player_entity),
    ensures
        monsters_held_still(w0, w1),
{
    let r0 = w0.entities@;
    match w0.run_state {
        RunState::PreRun | RunState::PlayerTurn | RunState::MonsterTurn => {
            let wm = choose|wm: World| systems_ran(w0, wm) && #[trigger] reaped_into(wm, w1, crate::state::after_systems(w0.run_state));
            assert forall|x: int| 0 <= x < r0.len() && r0[x].monster && (#[trigger] w1.entities@[x]).alive implies {
                &&& w1.entities@[x].position == r0[x].position
                &&& w1.entities@[x].wants_to_melee == r0[x].wants_to_melee
            } by {
                lemma_reaped_keeps_living(wm, w1, x);
                lemma_systems_keep_monster(w0, wm, x);
            }
        },
        RunState::AwaitingInput => {
            let wm = choose|wm: World| input_handled(w0, wm, key) && #[trigger] reaped_into(wm, w1, crate::player::key_run_state(key));
            assert forall|x: int| 0 <= x < r0.len() && r0[x].monster && (#[trigger] w1.entities@[x]).alive implies {
                &&& w1.entities@[x].position == r0[x].position
                &&& w1.entities@[x].wants_to_melee == r0[x].wants_to_melee
            } by {
                match key_action(key) {
                    PlayerAction::Move(dx, dy) => {
                        assert(moved(w0, wm, dx, dy));
                        assert(!is_mover(r0[x]));
                        assert(wm.entities@[x] == r0[x]);
                    },
                    PlayerAction::PickUp => {
                        lemma_pickup_input(w0, wm, key);
                    },
                    _ => {},
                }
                lemma_reaped_keeps_living(wm, w1, x);
            }
        },
        RunState::ShowInventory | RunState::ShowDropItem => {
            let wm = choose|wm: World| menu_applied(w0, wm, menu) && #[trigger] reaped_into(wm, w1, crate::state::menu_next(w0.run_state, menu.0));
            assert forall|x: int| 0 <= x < r0.len() && r0[x].monster && (#[trigger] w1.entities@[x]).alive implies {
                &&& w1.entities@[x].position == r0[x].position
                &&& w1.entities@[x].wants_to_melee == r0[x].wants_to_melee
            } by {
                lemma_reaped_keeps_living(wm, w1, x);
            }
        },
    }
}

// ---------------------------------------------------------------- the player's position

proof fn lemma_last_step_of_lone_mover(w: World, dx: i32, dy: i32, p: int, k: int)
    requires
        0 <= p < w.entities@.len(),
        forall|x: int| 0 <= x < w.entities@.len() && x != p ==> !is_mover(#[trigger] w.entities@[x]),
        0 <= k <= w.entities@.len(),
    ensures
        last_step(w.map, w.entities@, dx, dy, k) == (if p < k && steps(w.map, w.entities@, w.entities@[p], dx, dy) {
            Some(step_position(w.entities@[p], dx, dy))
        } else {
            None
        }),
    decreases k,
{
    if k > 0 {
        lemma_last_step_of_lone_mover(w, dx, dy, p, k - 1);
        assert(k - 1 != p ==> !is_mover(w.entities@[k - 1]));
    }
}

/// The position resource keeps mirroring the player: when the player is the only
/// record that the movement keys move and the resource holds the player's position,
/// it still does after a move.
pub proof fn law_player_pos_follows_the_player(w0: World, w1: World, dx: i32, dy: i32, p: int)
    requires
        moved(w0, w1, dx, dy),
        0 <= p < w0.entities@.len(),
        is_mover(w0.entities@[p]),
        forall|x: int| 0 <= x < w0.entities@.len() && x != p ==> !is_mover(#[trigger] w0.entities@[x]),
        w0.player_pos == (Point { x: w0.entities@[p].position.unwrap().x, y: w0.entities@[p].position.unwrap().y }),
    ensures
        w1.entities@[p].position is Some,
        w1.player_pos == (Point { x: w1.entities@[p].position.unwrap().x, y: w1.entities@[p].position.unwrap().y }),
{
    let recs = w0.entities@;
    let stop = first_stop(w0.map, recs, dx, dy, recs.len() as int);
    crate::player::lemma_first_stop_bounds(w0.map, recs, dx, dy, recs.len() as int);
    lemma_last_step_of_lone_mover(w0, dx, dy, p, stop);
    assert(w1.entities@[p] == after_move(w0.map, recs, dx, dy, stop, p));
}

// ---------------------------------------------------------------- items

/// Drinking heals within bounds: where hit points do not exceed their maximum and
/// the potion heals by a non-negative amount, a record's hit points after the drinking
/// step lie between the old ones and the maximum; maximum, power and defense stay.
pub proof fn law_drinking_heals_within_bounds(recs: Seq<EntityRecord>, x: int)
    requires
        0 <= x < recs.len(),
        recs[x].combat_stats is Some,
        recs[x].combat_stats.unwrap().hp <= recs[x].combat_stats.unwrap().max_hp,
        forall|j: int| 0 <= j < recs.len() && (#[trigger] recs[j]).potion is Some ==> recs[j].potion.unwrap().heal_amount >= 0,
    ensures
        after_drinking(recs, x).combat_stats is Some,
        recs[x].combat_stats.unwrap().hp <= after_drinking(recs, x).combat_stats.unwrap().hp,
        after_drinking(recs, x).combat_stats.unwrap().hp <= after_drinking(recs, x).combat_stats.unwrap().max_hp,
        after_drinking(recs, x).combat_stats.unwrap().max_hp == recs[x].combat_stats.unwrap().max_hp,
        after_drinking(recs, x).combat_stats.unwrap().power == recs[x].combat_stats.unwrap().power,
        after_drinking(recs, x).combat_stats.unwrap().defense == recs[x].combat_stats.unwrap().defense,
{
    let r = recs[x];
    if drinks(recs, r) {
        let e = r.wants_to_drink.unwrap().potion.0 as int;
        assert(recs[e].potion is Some);
    }
}

/// A drop gives back what a pickup took: an item lying where the player stands, picked
/// up by the player (with no one picking up the player), is back on that cell and out
/// of the backpack once the player drops it.
pub proof fn law_drop_undoes_pickup(r0: Seq<EntityRecord>, p: int, i: int)
    requires
        r0.len() <= usize::MAX,
        0 <= p < r0.len(),
        0 <= i < r0.len(),
        p != i,
        r0[p].alive,
        r0[i].position is Some,
        r0[p].position == r0[i].position,
        last_pickup(r0, Entity(i as usize), r0.len() as int)
            == Some(WantsToPickupItem { collected_by: Entity(p as usize), item: Entity(i as usize) }),
        last_pickup(r0, Entity(p as usize), r0.len() as int) is None,
    ensures
        ({
            let r1 = pickup_stage(r0);
            let r2 = r1.update(p, EntityRecord { wants_to_drop: Some(WantsToDropItem { item: Entity(i as usize) }), ..r1[p] });
            &&& r1[i].position is None
            &&& r1[i].in_backpack == Some(crate::components::InBackpack { owner: Entity(p as usize) })
            &&& after_drop(r2, Entity(p as usize), i).position == r0[i].position
            &&& after_drop(r2, Entity(p as usize), i).in_backpack is None
        }),
{
    let r1 = pickup_stage(r0);
    let r2 = r1.update(p, EntityRecord { wants_to_drop: Some(WantsToDropItem { item: Entity(i as usize) }), ..r1[p] });
    assert(r1[p].position == r0[p].position);
    assert(alive_in(r2, Entity(p as usize)));
    assert(player_drop(r2, Entity(p as usize)) == Some(WantsToDropItem { item: Entity(i as usize) }));
}

// ---------------------------------------------------------------- attacking and stepping

/// The entity exists and has hit points.
pub open spec fn has_hit_points(recs: Seq<EntityRecord>, t: Entity) -> bool {
    t.0 < recs.len() && recs[t.0 as int].alive && recs[t.0 as int].combat_stats is Some
}

proof fn lemma_first_fighter(recs: Seq<EntityRecord>, s: Seq<Entity>, k: int)
    requires
        0 <= k,
    ensures
        first_fighter_from(recs, s, k) is Some ==> has_hit_points(recs, first_fighter_from(recs, s, k).unwrap())
            && s.contains(first_fighter_from(recs, s, k).unwrap()),
        (forall|j: int| k <= j < s.len() ==> !has_hit_points(recs, #[trigger] s[j]))
            <==> first_fighter_from(recs, s, k) is None,
    decreases s.len() - k,
{
    if k < s.len() {
        lemma_first_fighter(recs, s, k + 1);
        if has_hit_points(recs, s[k]) {
            assert(first_fighter_from(recs, s, k) is Some);
        }
    }
}

/// A move attacks only entities with hit points: whenever a move changes a record's
/// attack intent, the new intent names an existing entity that has hit points.
pub proof fn law_moves_attack_only_entities_with_hit_points(w0: World, w1: World, dx: i32, dy: i32, x: int)
    requires
        moved(w0, w1, dx, dy),
        0 <= x < w0.entities@.len(),
        w1.entities@[x].wants_to_melee != w0.entities@[x].wants_to_melee,
    ensures
        w1.entities@[x].wants_to_melee is Some,
        has_hit_points(w0.entities@, w1.entities@[x].wants_to_melee.unwrap().target),
        w0.entities@[x].position is Some,
        w0.map.tile_content@[(w0.entities@[x].position.unwrap().y + dy) * w0.map.width
            + w0.entities@[x].position.unwrap().x + dx]@.contains(w1.entities@[x].wants_to_melee.unwrap().target),
        w1.entities@[x].position == w0.entities@[x].position,
{
    let recs = w0.entities@;
    let r = recs[x];
    let stop = first_stop(w0.map, recs, dx, dy, recs.len() as int);
    assert(w1.entities@[x] == after_move(w0.map, recs, dx, dy, stop, x));
    lemma_first_fighter(recs, w0.map.tile_content@[crate::player::dest_cell(w0.map, r, dx, dy)]@, 0);
}

/// A move steps onto a free cell: when the player is the only player record, its
/// destination lies inside the map (on a map no larger than the 80 by 50 screen), the
/// cell is not blocked, and no entity listed on it has hit points, the player stands
/// on the destination afterwards, attacks nobody new, and the position resource
/// follows it.
pub proof fn law_moves_step_onto_cells_without_fighters(w0: World, w1: World, dx: i32, dy: i32, p: int)
    requires
        w0.wf(),
        moved(w0, w1, dx, dy),
        0 <= p < w0.entities@.len(),
        w0.entities@[p].player,
        w0.entities@[p].position is Some,
        w0.entities@[p].viewshed is Some,
        forall|x: int| 0 <= x < w0.entities@.len() && x != p ==> !(#[trigger] w0.entities@[x]).player,
        w0.map.width <= 80,
        w0.map.height <= 50,
        1 <= w0.entities@[p].position.unwrap().x + dx <= w0.map.width - 1,
        1 <= w0.entities@[p].position.unwrap().y + dy <= w0.map.height - 1,
        !w0.map.blocked@[(w0.entities@[p].position.unwrap().y + dy) * w0.map.width
            + w0.entities@[p].position.unwrap().x + dx],
        forall|k: int| 0 <= k < w0.map.tile_content@[(w0.entities@[p].position.unwrap().y + dy) * w0.map.width
            + w0.entities@[p].position.unwrap().x + dx]@.len()
            ==> !has_hit_points(w0.entities@, #[trigger] w0.map.tile_content@[(w0.entities@[p].position.unwrap().y + dy)
                * w0.map.width + w0.entities@[p].position.unwrap().x + dx]@[k]),
    ensures
        w1.entities@[p].position == Some(Position {
            x: (w0.entities@[p].position.unwrap().x + dx) as i32,
            y: (w0.entities@[p].position.unwrap().y + dy) as i32,
        }),
        w1.entities@[p].wants_to_melee == w0.entities@[p].wants_to_melee,
        w1.player_pos == (Point {
            x: (w0.entities@[p].position.unwrap().x + dx) as i32,
            y: (w0.entities@[p].position.unwrap().y + dy) as i32,
        }),
{
    let recs = w0.entities@;
    let n = recs.len() as int;
    let r = recs[p];
    let map = w0.map;
    let cell = crate::player::dest_cell(map, r, dx, dy);
    let s = map.tile_content@[cell]@;
    lemma_first_fighter(recs, s, 0);
    assert(melee_target(map, recs, r, dx, dy) is None);
    assert(!stops(map, recs, r, dx, dy));
    assert(steps(map, recs, r, dx, dy));
    assert forall|j: int| 0 <= j < n implies !stops(map, recs, #[trigger] recs[j], dx, dy) by {
        if j != p {
            assert(!recs[j].player);
        }
    }
    crate::player::lemma_first_stop_none(map, recs, dx, dy, 0, n);
    assert forall|x: int| 0 <= x < n && x != p implies !is_mover(#[trigger] recs[x]) by {
        assert(!recs[x].player);
    }
    lemma_last_step_of_lone_mover(w0, dx, dy, p, n);
    assert(w1.entities@[p] == after_move(map, recs, dx, dy, n, p));
}

/// A move attacks a fighter standing on the destination: when the player is the only
/// player record, its destination lies inside the map and some entity listed on that
/// cell has hit points, the player stays where it is and now attacks an entity with hit
/// points listed on that cell.
pub proof fn law_moves_attack_fighters_on_the_destination(w0: World, w1: World, dx: i32, dy: i32, p: int, k: int)
    requires
        w0.wf(),
        moved(w0, w1, dx, dy),
        0 <= p < w0.entities@.len(),
        w0.entities@[p].player,
        w0.entities@[p].position is Some,
        w0.entities@[p].viewshed is Some,
        forall|x: int| 0 <= x < w0.entities@.len() && x != p ==> !(#[trigger] w0.entities@[x]).player,
        1 <= w0.entities@[p].position.unwrap().x + dx <= w0.map.width - 1,
        1 <= w0.entities@[p].position.unwrap().y + dy <= w0.map.height - 1,
        0 <= k < w0.map.tile_content@[(w0.entities@[p].position.unwrap().y + dy) * w0.map.width
            + w0.entities@[p].position.unwrap().x + dx]@.len(),
        has_hit_points(w0.entities@, w0.map.tile_content@[(w0.entities@[p].position.unwrap().y + dy) * w0.map.width
            + w0.entities@[p].position.unwrap().x + dx]@[k]),
    ensures
        w1.entities@[p].position == w0.entities@[p].position,
        w1.entities@[p].wants_to_melee is Some,
        has_hit_points(w0.entities@, w1.entities@[p].wants_to_melee.unwrap().target),
        w0.map.tile_content@[(w0.entities@[p].position.unwrap().y + dy) * w0.map.width
            + w0.entities@[p].position.unwrap().x + dx]@.contains(w1.entities@[p].wants_to_melee.unwrap().target),
        w1.player_pos == w0.player_pos,
{
    let recs = w0.entities@;
    let n = recs.len() as int;
    let r = recs[p];
    let map = w0.map;
    let cell = crate::player::dest_cell(map, r, dx, dy);
    let s = map.tile_content@[cell]@;
    lemma_first_fighter(recs, s, 0);
    assert(has_hit_points(recs, s[k]));
    assert(melee_target(map, recs, r, dx, dy) is Some);
    assert(stops(map, recs, r, dx, dy));
    assert forall|j: int| 0 <= j < p implies !stops(map, recs, #[trigger] recs[j], dx, dy) by {
        assert(!recs[j].player);
    }
    crate::player::lemma_first_stop_none(map, recs, dx, dy, 0, p);
    assert(first_stop(map, recs, dx, dy, p + 1) == p);
    crate::player::lemma_first_stop_stable(map, recs, dx, dy, p + 1, n);
    assert forall|x: int| 0 <= x < n && x != p implies !is_mover(#[trigger] recs[x]) by {
        assert(!recs[x].player);
    }
    lemma_last_step_of_lone_mover(w0, dx, dy, p, p);
    assert(w1.entities@[p] == after_move(map, recs, dx, dy, p, p));
}

// ---------------------------------------------------------------- item menus

/// An item menu without an answer stays open: a tick in the inventory or the drop
/// menu with no response keeps that run state, and leaves the map and the position
/// resource as they were.
pub proof fn law_unanswered_menus_stay_open(w0: World, w1: World, key: Option<Key>, menu: (ItemMenuResult, Option<Entity>))
    requires
        ticked(w0, w1, key, menu),
        w0.run_state == RunState::ShowInventory || w0.run_state == RunState::ShowDropItem,
        menu.0 == ItemMenuResult::NoResponse,
    ensures
        w1.run_state == w0.run_state,
        w1.map == w0.map,
        w1.player_pos == w0.player_pos,
{
    let wm = choose|wm: World| menu_applied(w0, wm, menu) && #[trigger] reaped_into(wm, w1, crate::state::menu_next(w0.run_state, menu.0));
}

// ---------------------------------------------------------------- damage

/// Damage is applied to every record that has hit points and pending damage, whatever
/// its other components (the player's too): its hit points drop by the sum of the
/// amounts, its other stats stay, and the pending damage is cleared.
pub proof fn law_damage_lowers_hit_points_by_the_sum(r: EntityRecord)
    requires
        r.combat_stats is Some,
        r.suffer_damage is Some,
        i32::MIN <= r.combat_stats.unwrap().hp - total(r.suffer_damage.unwrap().amount@) <= i32::MAX,
    ensures
        damaged(r).combat_stats is Some,
        damaged(r).combat_stats.unwrap().hp == r.combat_stats.unwrap().hp - total(r.suffer_damage.unwrap().amount@),
        damaged(r).combat_stats.unwrap().max_hp == r.combat_stats.unwrap().max_hp,
        damaged(r).combat_stats.unwrap().power == r.combat_stats.unwrap().power,
        damaged(r).combat_stats.unwrap().defense == r.combat_stats.unwrap().defense,
        damaged(r).suffer_damage is None,
        damaged(r).position == r.position,
        damaged(r).alive == r.alive,
{
}

/// Records without pending damage keep their hit points through the damage step.
pub proof fn law_no_damage_keeps_hit_points(r: EntityRecord)
    requires
        r.suffer_damage is None,
    ensures
        damaged(r).combat_stats == r.combat_stats,
{
}

proof fn lemma_prefix_sum_push(s: Seq<i32>, a: i32, k: int)
    requires
        0 <= k <= s.len(),
    ensures
        prefix_sum(s.push(a), k) == prefix_sum(s, k),
    decreases k,
{
    if k > 0 {
        lemma_prefix_sum_push(s, a, k - 1);
    }
}

/// The total of the damage amounts is their sum: nothing for no amounts, and one more
/// amount adds exactly that amount.
pub proof fn law_damage_total_is_the_sum(s: Seq<i32>, a: i32)
    ensures
        total(Seq::<i32>::empty()) == 0,
        total(s.push(a)) == total(s) + a,
{
    lemma_prefix_sum_push(s, a, s.len() as int);
}

// ---------------------------------------------------------------- keys

/// Each key does its own thing, in every world: the arrows, the numpad and WASD move
/// one cell in their direction, Q, E, C and Z move diagonally up-left, up-right,
/// down-right and down-left, F picks up, and B, G and other keys change nothing.
pub proof fn law_keys_move_by_their_offsets(w0: World, w1: World, k: Key)
    requires
        input_handled(w0, w1, Some(k)),
    ensures
        (k == Key::Left || k == Key::Numpad4 || k == Key::A) ==> moved(w0, w1, -1i32, 0i32),
        (k == Key::Right || k == Key::Numpad6 || k == Key::D) ==> moved(w0, w1, 1i32, 0i32),
        (k == Key::Up || k == Key::Numpad8 || k == Key::W) ==> moved(w0, w1, 0i32, -1i32),
        (k == Key::Down || k == Key::Numpad2 || k == Key::S) ==> moved(w0, w1, 0i32, 1i32),
        k == Key::Q ==> moved(w0, w1, -1i32, -1i32),
        k == Key::E ==> moved(w0, w1, 1i32, -1i32),
        k == Key::C ==> moved(w0, w1, 1i32, 1i32),
        k == Key::Z ==> moved(w0, w1, -1i32, 1i32),
        k == Key::F ==> picked_up(w0, w1),
        (k == Key::B || k == Key::G || k == Key::Other) ==> w1 == w0,
{
}

/// Each key leads to its run state: a tick awaiting input turns a movement key or F into
/// the player's turn, B into the inventory, G into the drop menu, and anything else back
/// into awaiting input.
pub proof fn law_keys_lead_to_their_run_states(w0: World, w1: World, key: Option<Key>,
    menu: (ItemMenuResult, Option<Entity>))
    requires
        ticked(w0, w1, key, menu),
        w0.run_state == RunState::AwaitingInput,
    ensures
        key == Some(Key::F) ==> w1.run_state == RunState::PlayerTurn,
        key == Some(Key::B) ==> w1.run_state == RunState::ShowInventory,
        key == Some(Key::G) ==> w1.run_state == RunState::ShowDropItem,
        (key is None || key == Some(Key::Other)) ==> w1.run_state == RunState::AwaitingInput,
        (key == Some(Key::Left) || key == Some(Key::Right) || key == Some(Key::Up) || key == Some(Key::Down)
            || key == Some(Key::Numpad4) || key == Some(Key::Numpad6) || key == Some(Key::Numpad8)
            || key == Some(Key::Numpad2) || key == Some(Key::A) || key == Some(Key::D) || key == Some(Key::W)
            || key == Some(Key::S) || key == Some(Key::Q) || key == Some(Key::E) || key == Some(Key::C)
            || key == Some(Key::Z)) ==> w1.run_state == RunState::PlayerTurn,
{
    let wm = choose|wm: World| input_handled(w0, wm, key) && #[trigger] reaped_into(wm, w1, crate::player::key_run_state(key));
}

} // verus!
