//! Picking items up, drinking potions and dropping items.

use vstd::prelude::*;
use vstd::string::StringExecFns;
use crate::components::{CombatStats, Entity, InBackpack, Potion, WantsToDropItem, WantsToPickupItem};
use crate::text::{append_i32, decimal};
use crate::world::{lemma_record_at, lemma_records_wf_update, EntityRecord, World};

verus! {

pub struct ItemCollectionSystem {}

pub struct ItemUseSystem {}

pub struct ItemDropSystem {}

/// `e` is an entity of the table `recs` that exists.
pub open spec fn alive_in(recs: Seq<EntityRecord>, e: Entity) -> bool {
    e.0 < recs.len() && recs[e.0 as int].alive
}

// ---------------------------------------------------------------- picking up

/// The last pickup among the first `k` records that names `x` as its item.
pub open spec fn last_pickup(recs: Seq<EntityRecord>, x: Entity, k: int) -> Option<WantsToPickupItem>
    decreases k,
{
    if k <= 0 {
        None
    } else if recs[k - 1].wants_to_pickup is Some && recs[k - 1].wants_to_pickup.unwrap().item == x {
        recs[k - 1].wants_to_pickup
    } else {
        last_pickup(recs, x, k - 1)
    }
}

/// An item after a pickup: off the map, in the collector's backpack.
pub open spec fn collected(r: EntityRecord, p: Option<WantsToPickupItem>) -> EntityRecord {
    match p {
        Some(p) => EntityRecord {
            position: None,
            in_backpack: Some(InBackpack { owner: p.collected_by }),
            ..r
        },
        None => r,
    }
}

pub open spec fn pickup_message(name: Seq<char>) -> Seq<char> {
    "You pickup the "@ + name
}

/// The pickup lines for the first `k` records: one per pickup made by `player`.
pub open spec fn pickup_messages(recs: Seq<EntityRecord>, player: Entity, k: int) -> Seq<Seq<char>>
    decreases k,
{
    if k <= 0 {
        seq![]
    } else {
        let prev = pickup_messages(recs, player, k - 1);
        let w = recs[k - 1].wants_to_pickup;
        if w is Some && w.unwrap().collected_by == player {
            prev.push(pickup_message(recs[w.unwrap().item.0 as int].name.unwrap()@))
        } else {
            prev
        }
    }
}

/// Every pickup names an existing item, and one the player picks up has a name.
pub open spec fn pickups_ready(recs: Seq<EntityRecord>, player: Entity) -> bool {
    forall|j: int| 0 <= j < recs.len() && (#[trigger] recs[j]).wants_to_pickup is Some ==> {
        let p = recs[j].wants_to_pickup.unwrap();
        &&& alive_in(recs, p.item)
        &&& p.collected_by == player ==> recs[p.item.0 as int].name is Some
    }
}

impl ItemCollectionSystem {
    /// Each pickup, in id order of the collectors, takes its item off the map and
    /// puts it in the collector's backpack (a later pickup of the same item wins);
    /// the player's pickups are logged; then all pickup intents are cleared.
    pub fn run(&mut self, world: &mut World)
        requires
            old(world).wf(),
            pickups_ready(old(world).entities@, old(world).player_entity),
        ensures
            final(world).wf(),
            final(world).entities@.len() == old(world).entities@.len(),
            forall|x: int| 0 <= x < old(world).entities@.len() ==>
                #[trigger] final(world).entities@[x] == (EntityRecord {
                    wants_to_pickup: None,
                    ..collected(old(world).entities@[x],
                        last_pickup(old(world).entities@, Entity(x as usize), old(world).entities@.len() as int))
                }),
            final(world).log.lines() == old(world).log.lines() + pickup_messages(
                old(world).entities@, old(world).player_entity, old(world).entities@.len() as int),
            final(world).map == old(world).map,
            final(world).player_entity == old(world).player_entity,
            final(world).rng == old(world).rng,
            final(world).player_pos == old(world).player_pos,
            final(world).run_state == old(world).run_state,
    {
        let ghost recs = old(world).entities@;
        let n = world.entities.len();
        let player = world.player_entity;
        let mut i: usize = 0;
        while i < n
            invariant
                world.wf(),
                n == world.entities@.len(),
                n == recs.len(),
                recs == old(world).entities@,
                player == world.player_entity,
                i <= n,
                pickups_ready(recs, player),
                forall|x: int| 0 <= x < n ==>
                    #[trigger] world.entities@[x] == collected(recs[x], last_pickup(recs, Entity(x as usize), i as int)),
                world.log.lines() == old(world).log.lines() + pickup_messages(recs, player, i as int),
                world.map == old(world).map,
                world.player_entity == old(world).player_entity,
                world.rng == old(world).rng,
                world.player_pos == old(world).player_pos,
                world.run_state == old(world).run_state,
            decreases n - i,
        {
            let ghost before = world.entities@;
            let ghost lines0 = world.log.lines();
            assert(world.entities@[i as int] == collected(recs[i as int], last_pickup(recs, Entity(i), i as int)));
            if let Some(pickup) = world.entities[i].wants_to_pickup {
                assert(recs[i as int].wants_to_pickup is Some);
                let item = pickup.item.0;
                assert(world.entities@[item as int] == collected(recs[item as int], last_pickup(recs, pickup.item, i as int)));
                proof { lemma_record_at(before, world.map.width as int, world.map.height as int, item as int); }
                world.entities[item].position = None;
                world.entities[item].in_backpack = Some(InBackpack { owner: pickup.collected_by });
                proof {
                    assert(world.entities@ =~= before.update(item as int, world.entities@[item as int]));
                    lemma_records_wf_update(before, world.map.width as int, world.map.height as int, item as int, world.entities@[item as int]);
                }
                if player == pickup.collected_by {
                    let mut line = <String as StringExecFns>::from_str("You pickup the ");
                    match &world.entities[item].name {
                        Some(name) => line.append(name.as_str()),
                        None => {},
                    }
                    world.log.entries.push(line);
                    assert(world.log.lines() =~= lines0.push(pickup_message(recs[item as int].name.unwrap()@)));
                }
                assert forall|x: int| 0 <= x < n implies
                    #[trigger] world.entities@[x] == collected(recs[x], last_pickup(recs, Entity(x as usize), i + 1)) by {
                    if x != item {
                        assert(world.entities@[x] == before[x]);
                    }
                }
            } else {
                assert forall|x: int| 0 <= x < n implies
                    #[trigger] world.entities@[x] == collected(recs[x], last_pickup(recs, Entity(x as usize), i + 1)) by {
                    assert(world.entities@[x] == before[x]);
                }
            }
            assert(world.log.lines() == old(world).log.lines() + pickup_messages(recs, player, i + 1));
            i = i + 1;
        }
        let mut j: usize = 0;
        while j < n
            invariant
                world.wf(),
                n == world.entities@.len(),
                n == recs.len(),
                recs == old(world).entities@,
                j <= n,
                forall|x: int| 0 <= x < j ==>
                    #[trigger] world.entities@[x] == (EntityRecord {
                        wants_to_pickup: None,
                        ..collected(recs[x], last_pickup(recs, Entity(x as usize), n as int))
                    }),
                forall|x: int| j <= x < n ==>
                    #[trigger] world.entities@[x] == collected(recs[x], last_pickup(recs, Entity(x as usize), n as int)),
                world.log.lines() == old(world).log.lines() + pickup_messages(recs, player, n as int),
                world.map == old(world).map,
                world.player_entity == old(world).player_entity,
                world.rng == old(world).rng,
                world.player_pos == old(world).player_pos,
                world.run_state == old(world).run_state,
            decreases n - j,
        {
            let ghost before = world.entities@;
            proof { lemma_record_at(before, world.map.width as int, world.map.height as int, j as int); }
            world.entities[j].wants_to_pickup = None;
            proof {
                assert(world.entities@ =~= before.update(j as int, world.entities@[j as int]));
                lemma_records_wf_update(before, world.map.width as int, world.map.height as int, j as int, world.entities@[j as int]);
            }
            j = j + 1;
        }
    }
}

// ---------------------------------------------------------------- drinking

/// The potion component of `e`, if `e` exists and is a potion.
pub open spec fn potion_of(recs: Seq<EntityRecord>, e: Entity) -> Option<Potion> {
    if alive_in(recs, e) { recs[e.0 as int].potion } else { None }
}

/// The record drinks a potion this turn: it has hit points and wants to drink an existing potion.
pub open spec fn drinks(recs: Seq<EntityRecord>, r: EntityRecord) -> bool {
    &&& r.combat_stats is Some
    &&& r.wants_to_drink is Some
    &&& potion_of(recs, r.wants_to_drink.unwrap().potion) is Some
}

/// The potion that the record drinks (meaningful when `drinks` holds).
pub open spec fn drunk_potion(recs: Seq<EntityRecord>, r: EntityRecord) -> Potion {
    potion_of(recs, r.wants_to_drink.unwrap().potion).unwrap()
}

/// Hit points after drinking: raised by the potion, but never above the maximum.
pub open spec fn healed_hp(stats: CombatStats, heal: int) -> int {
    if stats.max_hp <= stats.hp + heal { stats.max_hp as int } else { stats.hp + heal }
}

/// The record after its own drink, if it drinks.
pub open spec fn healed(recs: Seq<EntityRecord>, r: EntityRecord) -> EntityRecord {
    if drinks(recs, r) {
        EntityRecord {
            combat_stats: Some(CombatStats {
                hp: healed_hp(r.combat_stats.unwrap(), drunk_potion(recs, r).heal_amount as int) as i32,
                ..r.combat_stats.unwrap()
            }),
            ..r
        }
    } else {
        r
    }
}

/// Some record among the first `k` drinks potion `x`.
#[verifier::opaque]
pub open spec fn drunk_by_any(recs: Seq<EntityRecord>, x: Entity, k: int) -> bool {
    exists|j: int| 0 <= j < k && drinks(recs, #[trigger] recs[j]) && recs[j].wants_to_drink.unwrap().potion == x
}

pub open spec fn drink_message(name: Seq<char>, heal: i32) -> Seq<char> {
    "You drink the "@ + name + ", healing "@ + decimal(heal as int) + " hp."@
}

/// The drink lines for the first `k` records: one per potion the player drinks.
pub open spec fn drink_messages(recs: Seq<EntityRecord>, player: Entity, k: int) -> Seq<Seq<char>>
    decreases k,
{
    if k <= 0 {
        seq![]
    } else {
        let prev = drink_messages(recs, player, k - 1);
        let r = recs[k - 1];
        if drinks(recs, r) && player == Entity((k - 1) as usize) {
            let p = r.wants_to_drink.unwrap().potion;
            prev.push(drink_message(recs[p.0 as int].name.unwrap()@, drunk_potion(recs, r).heal_amount))
        } else {
            prev
        }
    }
}

/// Every drink can be applied: healing does not overflow, and a potion the player drinks has a name.
pub open spec fn drinks_ready(recs: Seq<EntityRecord>, player: Entity) -> bool {
    forall|j: int| 0 <= j < recs.len() && #[trigger] drinks(recs, recs[j]) ==> {
        &&& i32::MIN <= recs[j].combat_stats.unwrap().hp + drunk_potion(recs, recs[j]).heal_amount <= i32::MAX
        &&& player == Entity(j as usize) ==> recs[recs[j].wants_to_drink.unwrap().potion.0 as int].name is Some
    }
}

/// The record after the drinking step: its own drink applied, doomed if drunk, intent cleared.
pub open spec fn after_drinking(recs: Seq<EntityRecord>, x: int) -> EntityRecord {
    EntityRecord {
        doomed: recs[x].doomed || drunk_by_any(recs, Entity(x as usize), recs.len() as int),
        wants_to_drink: None,
        ..healed(recs, recs[x])
    }
}

proof fn lemma_drunk_by_any_step(recs: Seq<EntityRecord>, x: Entity, i: int)
    requires
        0 <= i < recs.len(),
    ensures
        drunk_by_any(recs, x, i + 1) == (drunk_by_any(recs, x, i) || (drinks(recs, recs[i])
            && recs[i].wants_to_drink.unwrap().potion == x)),
{
    reveal(drunk_by_any);
    if drunk_by_any(recs, x, i + 1) {
        let j = choose|j: int| 0 <= j < i + 1 && drinks(recs, #[trigger] recs[j])
            && recs[j].wants_to_drink.unwrap().potion == x;
        if j < i {
            assert(drunk_by_any(recs, x, i));
        }
    }
    if drunk_by_any(recs, x, i) {
        let j = choose|j: int| 0 <= j < i && drinks(recs, #[trigger] recs[j])
            && recs[j].wants_to_drink.unwrap().potion == x;
        assert(0 <= j < i + 1);
    }
    if drinks(recs, recs[i]) && recs[i].wants_to_drink.unwrap().potion == x {
        assert(0 <= i < i + 1);
    }
}

proof fn lemma_drunk_by_none(recs: Seq<EntityRecord>, x: Entity)
    ensures
        !drunk_by_any(recs, x, 0),
{
    reveal(drunk_by_any);
}

/// The log line for drinking a potion called `name`.
fn drink_line(name: &String, heal: i32) -> (line: String)
    ensures
        line@ == drink_message(name@, heal),
{
    let mut line = <String as StringExecFns>::from_str("You drink the ");
    line.append(name.as_str());
    line.append(", healing ");
    append_i32(&mut line, heal);
    line.append(" hp.");
    line
}

/// The potion that record `i` wants to drink, if it has hit points and the potion exists.
fn potion_to_drink(world: &World, i: usize) -> (r: Option<(usize, Potion)>)
    requires
        world.wf(),
        i < world.entities@.len(),
    ensures
        (r is Some) == drinks(world.entities@, world.entities@[i as int]),
        r is Some ==> r.unwrap().0 as int == world.entities@[i as int].wants_to_drink.unwrap().potion.0,
        r is Some ==> r.unwrap().1 == drunk_potion(world.entities@, world.entities@[i as int]),
{
    if world.entities[i].combat_stats.is_none() {
        return None;
    }
    match world.entities[i].wants_to_drink {
        Some(drink) => {
            let p = drink.potion.0;
            if p < world.entities.len() && world.entities[p].alive {
                match world.entities[p].potion {
                    Some(potion) => Some((p, potion)),
                    None => None,
                }
            } else {
                None
            }
        },
        None => None,
    }
}

impl ItemUseSystem {
    /// Each entity with hit points that wants to drink an existing potion is healed
    /// by it, up to its maximum; the player's drinks are logged; each drunk potion is
    /// deleted at the next maintenance; then all drinking intents are cleared.
    pub fn run(&mut self, world: &mut World)
        requires
            old(world).wf(),
            drinks_ready(old(world).entities@, old(world).player_entity),
        ensures
            final(world).wf(),
            final(world).entities@.len() == old(world).entities@.len(),
            forall|x: int| 0 <= x < old(world).entities@.len() ==>
                #[trigger] final(world).entities@[x] == after_drinking(old(world).entities@, x),
            forall|x: int| 0 <= x < old(world).entities@.len() && drinks(old(world).entities@, #[trigger] old(world).entities@[x])
                ==> final(world).entities@[x].combat_stats.unwrap().hp <= final(world).entities@[x].combat_stats.unwrap().max_hp,
            final(world).log.lines() == old(world).log.lines() + drink_messages(
                old(world).entities@, old(world).player_entity, old(world).entities@.len() as int),
            final(world).map == old(world).map,
            final(world).player_entity == old(world).player_entity,
            final(world).rng == old(world).rng,
            final(world).player_pos == old(world).player_pos,
            final(world).run_state == old(world).run_state,
    {
        let ghost recs = old(world).entities@;
        let ghost w = world.map.width as int;
        let ghost h = world.map.height as int;
        let n = world.entities.len();
        let player = world.player_entity;
        // Heal the drinkers and log the player's drinks.
        let mut i: usize = 0;
        while i < n
            invariant
                world.wf(),
                n == world.entities@.len(),
                n == recs.len(),
                recs == old(world).entities@,
                w == world.map.width,
                h == world.map.height,
                player == world.player_entity,
                i <= n,
                drinks_ready(recs, player),
                forall|x: int| 0 <= x < n ==> #[trigger] world.entities@[x]
                    == (if x < i { healed(recs, recs[x]) } else { recs[x] }),
                world.log.lines() == old(world).log.lines() + drink_messages(recs, player, i as int),
                world.map == old(world).map,
                world.player_entity == old(world).player_entity,
                world.rng == old(world).rng,
                world.player_pos == old(world).player_pos,
                world.run_state == old(world).run_state,
            decreases n - i,
        {
            let ghost before = world.entities@;
            let ghost lines0 = world.log.lines();
            assert(before[i as int] == recs[i as int]);
            assert forall|x: int| 0 <= x < n && x != i implies
                (#[trigger] drinks(before, before[x])) == drinks(recs, recs[x])
                && (drinks(recs, recs[x]) ==> drunk_potion(before, before[x]) == drunk_potion(recs, recs[x])) by {
                let q = recs[x].wants_to_drink.unwrap().potion.0 as int;
                if 0 <= q < n {
                    assert(before[q].alive == recs[q].alive && before[q].potion == recs[q].potion);
                }
            }
            let found = potion_to_drink(world, i);
            if let Some((p, potion)) = found {
                assert(before[p as int].alive == recs[p as int].alive && before[p as int].potion == recs[p as int].potion
                    && before[p as int].name == recs[p as int].name);
                assert(drinks(recs, recs[i as int]));
                let stats = world.entities[i].combat_stats.unwrap();
                proof { lemma_record_at(before, w, h, i as int); }
                let raised = stats.hp + potion.heal_amount;
                let want_hp = if stats.max_hp <= raised { stats.max_hp } else { raised };
                world.entities[i].combat_stats = Some(CombatStats { hp: want_hp, ..stats });
                proof {
                    assert(world.entities@ =~= before.update(i as int, world.entities@[i as int]));
                    lemma_records_wf_update(before, w, h, i as int, world.entities@[i as int]);
                }
                if player.0 == i {
                    let line = match &world.entities[p].name {
                        Some(name) => drink_line(name, potion.heal_amount),
                        None => String::new(),
                    };
                    world.log.entries.push(line);
                    assert(world.log.lines() =~= lines0.push(
                        drink_message(recs[p as int].name.unwrap()@, potion.heal_amount)));
                }
            } else {
                assert(!drinks(recs, recs[i as int]));
            }
            assert forall|x: int| 0 <= x < n implies #[trigger] world.entities@[x]
                == (if x < i + 1 { healed(recs, recs[x]) } else { recs[x] }) by {
                if x != i {
                    assert(world.entities@[x] == before[x]);
                }
            }
            assert(world.log.lines() == old(world).log.lines() + drink_messages(recs, player, i + 1));
            i = i + 1;
        }
        // Doom the potions that were drunk.
        proof {
            assert forall|x: int| 0 <= x < n implies !(#[trigger] drunk_by_any(recs, Entity(x as usize), 0)) by {
                lemma_drunk_by_none(recs, Entity(x as usize));
            }
        }
        let mut j: usize = 0;
        while j < n
            invariant
                world.wf(),
                n == world.entities@.len(),
                n == recs.len(),
                recs == old(world).entities@,
                w == world.map.width,
                h == world.map.height,
                j <= n,
                forall|x: int| 0 <= x < n ==> #[trigger] world.entities@[x] == (EntityRecord {
                    doomed: recs[x].doomed || drunk_by_any(recs, Entity(x as usize), j as int),
                    ..healed(recs, recs[x])
                }),
                world.log.lines() == old(world).log.lines() + drink_messages(recs, player, n as int),
                world.map == old(world).map,
                world.player_entity == old(world).player_entity,
                world.rng == old(world).rng,
                world.player_pos == old(world).player_pos,
                world.run_state == old(world).run_state,
            decreases n - j,
        {
            let ghost before = world.entities@;
            proof {
                assert forall|x: int| 0 <= x < n implies
                    #[trigger] drunk_by_any(recs, Entity(x as usize), j + 1) == (drunk_by_any(recs, Entity(x as usize), j as int)
                        || (drinks(recs, recs[j as int]) && recs[j as int].wants_to_drink.unwrap().potion == Entity(x as usize))) by {
                    lemma_drunk_by_any_step(recs, Entity(x as usize), j as int);
                }
            }
            assert forall|x: int| 0 <= x < n implies (#[trigger] drinks(before, before[x])) == drinks(recs, recs[x]) by {
                let q = recs[x].wants_to_drink.unwrap().potion.0 as int;
                if 0 <= q < n {
                    assert(before[q].alive == recs[q].alive && before[q].potion == recs[q].potion);
                }
            }
            let found = potion_to_drink(world, j);
            if let Some((p, _potion)) = found {
                proof { lemma_record_at(before, w, h, p as int); }
                world.entities[p].doomed = true;
                proof {
                    assert(world.entities@ =~= before.update(p as int, world.entities@[p as int]));
                    lemma_records_wf_update(before, w, h, p as int, world.entities@[p as int]);
                }
            }
            assert forall|x: int| 0 <= x < n implies #[trigger] world.entities@[x] == (EntityRecord {
                doomed: recs[x].doomed || drunk_by_any(recs, Entity(x as usize), j + 1),
                ..healed(recs, recs[x])
            }) by {
                if found is None || x != found.unwrap().0 {
                    assert(world.entities@[x] == before[x]);
                }
            }
            j = j + 1;
        }
        // Clear the intents.
        let mut k: usize = 0;
        while k < n
            invariant
                world.wf(),
                n == world.entities@.len(),
                n == recs.len(),
                recs == old(world).entities@,
                w == world.map.width,
                h == world.map.height,
                k <= n,
                forall|x: int| 0 <= x < k ==> #[trigger] world.entities@[x] == after_drinking(recs, x),
                forall|x: int| k <= x < n ==> #[trigger] world.entities@[x] == (EntityRecord {
                    doomed: recs[x].doomed || drunk_by_any(recs, Entity(x as usize), n as int),
                    ..healed(recs, recs[x])
                }),
                world.log.lines() == old(world).log.lines() + drink_messages(recs, player, n as int),
                world.map == old(world).map,
                world.player_entity == old(world).player_entity,
                world.rng == old(world).rng,
                world.player_pos == old(world).player_pos,
                world.run_state == old(world).run_state,
            decreases n - k,
        {
            let ghost before = world.entities@;
            proof { lemma_record_at(before, w, h, k as int); }
            world.entities[k].wants_to_drink = None;
            proof {
                assert(world.entities@ =~= before.update(k as int, world.entities@[k as int]));
                lemma_records_wf_update(before, w, h, k as int, world.entities@[k as int]);
            }
            k = k + 1;
        }
    }
}

// ---------------------------------------------------------------- dropping

/// The player's drop intent, if the player exists and has one.
pub open spec fn player_drop(recs: Seq<EntityRecord>, player: Entity) -> Option<WantsToDropItem> {
    if alive_in(recs, player) { recs[player.0 as int].wants_to_drop } else { None }
}

/// A drop by the player can be carried out: the player stands somewhere, and the
/// item exists, has a name and is in a backpack.
pub open spec fn drop_ready(recs: Seq<EntityRecord>, player: Entity) -> bool {
    player_drop(recs, player) is Some ==> {
        let item = player_drop(recs, player).unwrap().item;
        &&& recs[player.0 as int].position is Some
        &&& alive_in(recs, item)
        &&& recs[item.0 as int].name is Some
        &&& recs[item.0 as int].in_backpack is Some
    }
}

/// Record `x` after the drop step: the dropped item lies where the player stands
/// and is out of the backpack; every drop intent is gone.
pub open spec fn after_drop(recs: Seq<EntityRecord>, player: Entity, x: int) -> EntityRecord {
    let d = player_drop(recs, player);
    if d is Some && d.unwrap().item == Entity(x as usize) {
        EntityRecord {
            position: recs[player.0 as int].position,
            in_backpack: None,
            wants_to_drop: None,
            ..recs[x]
        }
    } else {
        EntityRecord { wants_to_drop: None, ..recs[x] }
    }
}

pub open spec fn drop_message(name: Seq<char>) -> Seq<char> {
    "You drop the "@ + name + "."@
}

/// The log lines of the drop step: one if the player drops something.
pub open spec fn drop_messages(recs: Seq<EntityRecord>, player: Entity) -> Seq<Seq<char>> {
    let d = player_drop(recs, player);
    if d is Some {
        seq![drop_message(recs[d.unwrap().item.0 as int].name.unwrap()@)]
    } else {
        seq![]
    }
}

impl ItemDropSystem {
    /// Only the player's drop intent is carried out: the item is put down where the
    /// player stands, taken out of the backpack, and the drop is logged. Then all
    /// drop intents are cleared.
    pub fn run(&mut self, world: &mut World)
        requires
            old(world).wf(),
            drop_ready(old(world).entities@, old(world).player_entity),
        ensures
            final(world).wf(),
            final(world).entities@.len() == old(world).entities@.len(),
            forall|x: int| 0 <= x < old(world).entities@.len() ==>
                #[trigger] final(world).entities@[x] == after_drop(old(world).entities@, old(world).player_entity, x),
            final(world).log.lines() == old(world).log.lines()
                + drop_messages(old(world).entities@, old(world).player_entity),
            final(world).map == old(world).map,
            final(world).player_entity == old(world).player_entity,
            final(world).rng == old(world).rng,
            final(world).player_pos == old(world).player_pos,
            final(world).run_state == old(world).run_state,
    {
        let ghost recs = old(world).entities@;
        let ghost w = world.map.width as int;
        let ghost h = world.map.height as int;
        let n = world.entities.len();
        let player = world.player_entity;
        let ghost lines0 = world.log.lines();
        if player.0 < n && world.entities[player.0].alive {
            if let Some(want_drop) = world.entities[player.0].wants_to_drop {
                let item = want_drop.item.0;
                let pos = world.entities[player.0].position.unwrap();
                proof {
                    lemma_record_at(recs, w, h, player.0 as int);
                    lemma_record_at(recs, w, h, item as int);
                }
                world.entities[item].position = Some(pos);
                world.entities[item].in_backpack = None;
                proof {
                    assert(world.entities@ =~= recs.update(item as int, world.entities@[item as int]));
                    lemma_records_wf_update(recs, w, h, item as int, world.entities@[item as int]);
                }
                let mut line = <String as StringExecFns>::from_str("You drop the ");
                match &world.entities[item].name {
                    Some(name) => line.append(name.as_str()),
                    None => {},
                }
                line.append(".");
                world.log.entries.push(line);
                assert(world.log.lines() =~= lines0 + drop_messages(recs, player));
            } else {
                assert(world.log.lines() =~= lines0 + drop_messages(recs, player));
            }
        } else {
            assert(world.log.lines() =~= lines0 + drop_messages(recs, player));
        }
        let ghost mid = world.entities@;
        let mut k: usize = 0;
        while k < n
            invariant
                world.wf(),
                n == world.entities@.len(),
                n == recs.len(),
                n == mid.len(),
                recs == old(world).entities@,
                w == world.map.width,
                h == world.map.height,
                k <= n,
                forall|x: int| 0 <= x < n ==> #[trigger] mid[x] == (if player_drop(recs, player) is Some
                    && player_drop(recs, player).unwrap().item == Entity(x as usize) {
                    EntityRecord { position: recs[player.0 as int].position, in_backpack: None, ..recs[x] }
                } else {
                    recs[x]
                }),
                forall|x: int| 0 <= x < k ==> #[trigger] world.entities@[x] == (EntityRecord { wants_to_drop: None, ..mid[x] }),
                forall|x: int| k <= x < n ==> #[trigger] world.entities@[x] == mid[x],
                world.log.lines() == old(world).log.lines() + drop_messages(recs, player),
                world.map == old(world).map,
                world.player_entity == old(world).player_entity,
                world.rng == old(world).rng,
                world.player_pos == old(world).player_pos,
                world.run_state == old(world).run_state,
            decreases n - k,
        {
            let ghost before = world.entities@;
            proof { lemma_record_at(before, w, h, k as int); }
            world.entities[k].wants_to_drop = None;
            proof {
                assert(world.entities@ =~= before.update(k as int, world.entities@[k as int]));
                lemma_records_wf_update(before, w, h, k as int, world.entities@[k as int]);
            }
            k = k + 1;
        }
    }
}

// ---------------------------------------------------------------- carried items

/// The entities among the first `k` records that `owner` carries, in id order.
pub open spec fn carried_by(recs: Seq<EntityRecord>, owner: Entity, k: int) -> Seq<Entity>
    decreases k,
{
    if k <= 0 {
        seq![]
    } else {
        let prev = carried_by(recs, owner, k - 1);
        if recs[k - 1].in_backpack == Some(InBackpack { owner: owner }) {
            prev.push(Entity((k - 1) as usize))
        } else {
            prev
        }
    }
}

/// The items in `owner`'s backpack, in id order, as the item menus list them.
pub fn backpack_of(world: &World, owner: Entity) -> (items: Vec<Entity>)
    ensures
        items@ == carried_by(world.entities@, owner, world.entities@.len() as int),
{
    let n = world.entities.len();
    let mut items: Vec<Entity> = Vec::new();
    let mut i: usize = 0;
    while i < n
        invariant
            n == world.entities@.len(),
            i <= n,
            items@ == carried_by(world.entities@, owner, i as int),
        decreases n - i,
    {
        if world.entities[i].in_backpack == Some(InBackpack { owner }) {
            items.push(Entity(i));
        }
        i = i + 1;
    }
    items
}

// ---------------------------------------------------------------- readiness checks

/// Whether every pickup names an existing item, with a name when the player picks it up.
pub fn pickups_ok(world: &World) -> (ok: bool)
    ensures
        ok == pickups_ready(world.entities@, world.player_entity),
{
    let n = world.entities.len();
    let mut j: usize = 0;
    while j < n
        invariant
            n == world.entities@.len(),
            j <= n,
            forall|k: int| 0 <= k < j && (#[trigger] world.entities@[k]).wants_to_pickup is Some ==> {
                let p = world.entities@[k].wants_to_pickup.unwrap();
                &&& alive_in(world.entities@, p.item)
                &&& p.collected_by == world.player_entity ==> world.entities@[p.item.0 as int].name is Some
            },
        decreases n - j,
    {
        if let Some(p) = world.entities[j].wants_to_pickup {
            let item = p.item.0;
            if item >= n || !world.entities[item].alive {
                return false;
            }
            if p.collected_by == world.player_entity && world.entities[item].name.is_none() {
                return false;
            }
        }
        j = j + 1;
    }
    true
}

/// Whether every drink can be applied: healing fits an `i32`, and a potion the
/// player drinks has a name.
pub fn drinks_ok(world: &World) -> (ok: bool)
    requires
        world.wf(),
    ensures
        ok == drinks_ready(world.entities@, world.player_entity),
{
    let n = world.entities.len();
    let player = world.player_entity;
    let mut j: usize = 0;
    while j < n
        invariant
            world.wf(),
            n == world.entities@.len(),
            player == world.player_entity,
            j <= n,
            forall|k: int| 0 <= k < j && #[trigger] drinks(world.entities@, world.entities@[k]) ==> {
                &&& i32::MIN <= world.entities@[k].combat_stats.unwrap().hp
                        + drunk_potion(world.entities@, world.entities@[k]).heal_amount <= i32::MAX
                &&& player == Entity(k as usize)
                        ==> world.entities@[world.entities@[k].wants_to_drink.unwrap().potion.0 as int].name is Some
            },
        decreases n - j,
    {
        if let Some((p, potion)) = potion_to_drink(world, j) {
            let hp = world.entities[j].combat_stats.unwrap().hp;
            let raised = hp as i64 + potion.heal_amount as i64;
            if raised < i32::MIN as i64 || raised > i32::MAX as i64 {
                return false;
            }
            if player.0 == j && world.entities[p].name.is_none() {
                return false;
            }
        }
        j = j + 1;
    }
    true
}

/// Whether the player's drop, if any, can be carried out.
pub fn drop_ok(world: &World) -> (ok: bool)
    ensures
        ok == drop_ready(world.entities@, world.player_entity),
{
    let n = world.entities.len();
    let p = world.player_entity.0;
    if p >= n || !world.entities[p].alive {
        return true;
    }
    match world.entities[p].wants_to_drop {
        None => true,
        Some(d) => {
            let item = d.item.0;
            world.entities[p].position.is_some() && item < n && world.entities[item].alive
                && world.entities[item].name.is_some() && world.entities[item].in_backpack.is_some()
        },
    }
}

} // verus!
