//! Applies the damage dealt this turn, and removes the dead.

use vstd::prelude::*;
use vstd::string::StringExecFns;
use crate::components::CombatStats;
use crate::world::{bare_record, lemma_record_at, lemma_records_wf_update, new_bare_record, EntityRecord, World};

verus! {

pub struct DamageSystem {}

/// The sum of the first `k` amounts.
pub open spec fn prefix_sum(s: Seq<i32>, k: int) -> int
    decreases k,
{
    if k <= 0 { 0 } else { prefix_sum(s, k - 1) + s[k - 1] }
}

/// The total of all amounts.
pub open spec fn total(s: Seq<i32>) -> int {
    prefix_sum(s, s.len() as int)
}

/// Summing the amounts in order never leaves the range of `i32`.
pub open spec fn sum_fits(s: Seq<i32>) -> bool {
    forall|k: int| 0 <= k <= s.len() ==> i32::MIN <= #[trigger] prefix_sum(s, k) <= i32::MAX
}

/// The record takes damage this turn: it has hit points and damage to take.
pub open spec fn takes_damage(r: EntityRecord) -> bool {
    r.combat_stats is Some && r.suffer_damage is Some
}

/// The damage of this record can be applied without overflowing `i32`.
pub open spec fn damage_fits(r: EntityRecord) -> bool {
    takes_damage(r) ==> {
        &&& sum_fits(r.suffer_damage.unwrap().amount@)
        &&& i32::MIN <= r.combat_stats.unwrap().hp - total(r.suffer_damage.unwrap().amount@) <= i32::MAX
    }
}

/// The record after this turn's damage: hit points lowered by the total, damage cleared.
pub open spec fn damaged(r: EntityRecord) -> EntityRecord {
    EntityRecord {
        combat_stats: if takes_damage(r) {
            Some(CombatStats {
                hp: (r.combat_stats.unwrap().hp - total(r.suffer_damage.unwrap().amount@)) as i32,
                ..r.combat_stats.unwrap()
            })
        } else {
            r.combat_stats
        },
        suffer_damage: None,
        ..r
    }
}

/// The entity dies now: out of hit points and not the player.
pub open spec fn is_dying(r: EntityRecord) -> bool {
    r.combat_stats is Some && r.combat_stats.unwrap().hp < 1 && !r.player
}

/// The log line for a death.
pub open spec fn death_message(name: Seq<char>) -> Seq<char> {
    name + " is dead"@
}

/// The death lines for the first `k` records, in id order; nameless victims get none.
pub open spec fn death_messages(recs: Seq<EntityRecord>, k: int) -> Seq<Seq<char>>
    decreases k,
{
    if k <= 0 {
        seq![]
    } else {
        let prev = death_messages(recs, k - 1);
        let r = recs[k - 1];
        if is_dying(r) && r.name is Some {
            prev.push(death_message(r.name.unwrap()@))
        } else {
            prev
        }
    }
}

/// Adds up the amounts of one entity's damage.
fn sum_amounts(amounts: &Vec<i32>) -> (s: i32)
    requires
        sum_fits(amounts@),
    ensures
        s == total(amounts@),
{
    let n = amounts.len();
    let mut s: i32 = 0;
    let mut k: usize = 0;
    while k < n
        invariant
            n == amounts@.len(),
            k <= n,
            sum_fits(amounts@),
            s == prefix_sum(amounts@, k as int),
        decreases n - k,
    {
        assert(i32::MIN <= prefix_sum(amounts@, k + 1) <= i32::MAX);
        s = s + amounts[k];
        k = k + 1;
    }
    s
}

/// Whether this turn's damage of every entity can be applied without overflow.
pub fn damage_ok(world: &World) -> (ok: bool)
    ensures
        ok == forall|i: int| 0 <= i < world.entities@.len() ==> damage_fits(#[trigger] world.entities@[i]),
{
    let n = world.entities.len();
    let mut i: usize = 0;
    while i < n
        invariant
            n == world.entities@.len(),
            i <= n,
            forall|j: int| 0 <= j < i ==> damage_fits(#[trigger] world.entities@[j]),
        decreases n - i,
    {
        if world.entities[i].combat_stats.is_some() && world.entities[i].suffer_damage.is_some() {
            let hp = world.entities[i].combat_stats.unwrap().hp;
            let amounts = match &world.entities[i].suffer_damage {
                Some(d) => &d.amount,
                None => { return false; },
            };
            assert(amounts@ == world.entities@[i as int].suffer_damage.unwrap().amount@);
            let len = amounts.len();
            let mut s: i64 = 0;
            let mut k: usize = 0;
            while k < len
                invariant
                    i < n,
                    n == world.entities@.len(),
                    takes_damage(world.entities@[i as int]),
                    amounts@ == world.entities@[i as int].suffer_damage.unwrap().amount@,
                    len == amounts@.len(),
                    k <= len,
                    s == prefix_sum(amounts@, k as int),
                    forall|m: int| 0 <= m <= k ==> i32::MIN <= #[trigger] prefix_sum(amounts@, m) <= i32::MAX,
                decreases len - k,
            {
                s = s + amounts[k] as i64;
                assert(s == prefix_sum(amounts@, k + 1));
                if s < i32::MIN as i64 || s > i32::MAX as i64 {
                    assert(!sum_fits(amounts@));
                    assert(!damage_fits(world.entities@[i as int]));
                    return false;
                }
                k = k + 1;
            }
            assert(sum_fits(amounts@));
            assert(s == total(amounts@));
            let left = hp as i64 - s;
            if left < i32::MIN as i64 || left > i32::MAX as i64 {
                assert(!damage_fits(world.entities@[i as int]));
                return false;
            }
            assert(damage_fits(world.entities@[i as int]));
        }
        i = i + 1;
    }
    true
}

impl DamageSystem {
    /// Every entity with hit points loses the total of its damage this turn;
    /// then all pending damage is cleared.
    pub fn run(&mut self, world: &mut World)
        requires
            old(world).wf(),
            forall|i: int| 0 <= i < old(world).entities@.len()
                ==> damage_fits(#[trigger] old(world).entities@[i]),
        ensures
            final(world).wf(),
            final(world).entities@.len() == old(world).entities@.len(),
            forall|i: int| 0 <= i < old(world).entities@.len()
                ==> #[trigger] final(world).entities@[i] == damaged(old(world).entities@[i]),
            forall|i: int| 0 <= i < final(world).entities@.len()
                ==> (#[trigger] final(world).entities@[i]).suffer_damage is None,
            final(world).map == old(world).map,
            final(world).player_entity == old(world).player_entity,
            final(world).rng == old(world).rng,
            final(world).player_pos == old(world).player_pos,
            final(world).run_state == old(world).run_state,
            final(world).log == old(world).log,
    {
        let n = world.entities.len();
        let mut i: usize = 0;
        while i < n
            invariant
                world.wf(),
                n == world.entities@.len(),
                n == old(world).entities@.len(),
                i <= n,
                forall|j: int| 0 <= j < n ==> damage_fits(#[trigger] old(world).entities@[j]),
                forall|j: int| 0 <= j < i
                    ==> #[trigger] world.entities@[j] == damaged(old(world).entities@[j]),
                forall|j: int| i <= j < n ==> #[trigger] world.entities@[j] == old(world).entities@[j],
                world.map == old(world).map,
                world.player_entity == old(world).player_entity,
                world.rng == old(world).rng,
                world.player_pos == old(world).player_pos,
                world.run_state == old(world).run_state,
                world.log == old(world).log,
            decreases n - i,
        {
            assert(damage_fits(old(world).entities@[i as int]));
            let ghost before = world.entities@;
            proof { lemma_record_at(before, world.map.width as int, world.map.height as int, i as int); }
            if world.entities[i].combat_stats.is_some() && world.entities[i].suffer_damage.is_some() {
                let stats = world.entities[i].combat_stats.unwrap();
                let dealt = match &world.entities[i].suffer_damage {
                    Some(d) => sum_amounts(&d.amount),
                    None => 0,
                };
                world.entities[i].combat_stats = Some(CombatStats { hp: stats.hp - dealt, ..stats });
            }
            world.entities[i].suffer_damage = None;
            assert(world.entities@[i as int] == damaged(old(world).entities@[i as int]));
            proof {
                assert(world.entities@ =~= before.update(i as int, world.entities@[i as int]));
                lemma_records_wf_update(before, world.map.width as int, world.map.height as int, i as int, world.entities@[i as int]);
            }
            i = i + 1;
        }
    }

    /// Removes every entity that is out of hit points, except the player, and logs
    /// "<name> is dead" for each named one, in id order.
    pub fn delete_the_dead(ecs: &mut World)
        requires
            old(ecs).wf(),
        ensures
            final(ecs).wf(),
            final(ecs).entities@.len() == old(ecs).entities@.len(),
            forall|i: int| 0 <= i < old(ecs).entities@.len() ==>
                #[trigger] final(ecs).entities@[i] == (if is_dying(old(ecs).entities@[i]) {
                    bare_record(false)
                } else {
                    old(ecs).entities@[i]
                }),
            final(ecs).log.lines() == old(ecs).log.lines()
                + death_messages(old(ecs).entities@, old(ecs).entities@.len() as int),
            forall|i: int| 0 <= i < final(ecs).entities@.len() ==> !is_dying(#[trigger] final(ecs).entities@[i]),
            forall|i: int| 0 <= i < old(ecs).entities@.len() && (#[trigger] old(ecs).entities@[i]).player
                ==> final(ecs).entities@[i] == old(ecs).entities@[i],
            final(ecs).map == old(ecs).map,
            final(ecs).player_entity == old(ecs).player_entity,
            final(ecs).rng == old(ecs).rng,
            final(ecs).player_pos == old(ecs).player_pos,
            final(ecs).run_state == old(ecs).run_state,
    {
        let n = ecs.entities.len();
        let mut i: usize = 0;
        while i < n
            invariant
                ecs.wf(),
                n == ecs.entities@.len(),
                n == old(ecs).entities@.len(),
                i <= n,
                forall|j: int| 0 <= j < i ==>
                    #[trigger] ecs.entities@[j] == (if is_dying(old(ecs).entities@[j]) {
                        bare_record(false)
                    } else {
                        old(ecs).entities@[j]
                    }),
                forall|j: int| i <= j < n ==> #[trigger] ecs.entities@[j] == old(ecs).entities@[j],
                ecs.log.lines() == old(ecs).log.lines() + death_messages(old(ecs).entities@, i as int),
                ecs.map == old(ecs).map,
                ecs.player_entity == old(ecs).player_entity,
                ecs.rng == old(ecs).rng,
                ecs.player_pos == old(ecs).player_pos,
                ecs.run_state == old(ecs).run_state,
            decreases n - i,
        {
            let ghost lines0 = ecs.log.lines();
            let dying = match ecs.entities[i].combat_stats {
                Some(stats) => stats.hp < 1 && !ecs.entities[i].player,
                None => false,
            };
            if dying {
                match &ecs.entities[i].name {
                    Some(name) => {
                        let mut line = name.clone();
                        line.append(" is dead");
                        ecs.log.entries.push(line);
                        assert(ecs.log.lines() =~= lines0.push(death_message(name@)));
                    },
                    None => {},
                }
                proof { lemma_records_wf_update(ecs.entities@, ecs.map.width as int, ecs.map.height as int, i as int, bare_record(false)); }
                ecs.entities.set(i, new_bare_record(false));
            }
            assert(ecs.log.lines() == old(ecs).log.lines() + death_messages(old(ecs).entities@, i + 1));
            i = i + 1;
        }
    }
}

} // verus!
