//! The player's moves, attacks and pickups, and the keys that trigger them.

use vstd::prelude::*;
use vstd::string::StringExecFns;
use crate::components::{Entity, Point, Position, Viewshed, WantsToMelee, WantsToPickupItem};
use crate::inventory_system::alive_in;
use crate::map::GameMap;
use crate::state::State;
use crate::world::{lemma_record_at, lemma_records_wf_update, EntityRecord, RunState, World};

verus! {

/// The keys the game reacts to; every other key is `Other`.
#[derive(Clone, Copy, PartialEq, Eq, Structural, Debug)]
pub enum Key {
    Left,
    Right,
    Up,
    Down,
    Numpad2,
    Numpad4,
    Numpad6,
    Numpad8,
    A,
    D,
    W,
    S,
    Q,
    E,
    C,
    Z,
    F,
    B,
    G,
    Other,
}

// ---------------------------------------------------------------- moving

/// The record is moved by the movement keys: a player with a position and a viewshed.
pub open spec fn is_mover(r: EntityRecord) -> bool {
    r.player && r.position is Some && r.viewshed is Some
}

pub open spec fn dest_x(r: EntityRecord, dx: i32) -> int {
    r.position.unwrap().x + dx
}

pub open spec fn dest_y(r: EntityRecord, dy: i32) -> int {
    r.position.unwrap().y + dy
}

/// The destination is outside the map's inner area (the border cells excluded).
pub open spec fn leaves_map(map: GameMap, r: EntityRecord, dx: i32, dy: i32) -> bool {
    dest_x(r, dx) < 1 || dest_x(r, dx) > map.width - 1 || dest_y(r, dy) < 1 || dest_y(r, dy) > map.height - 1
}

/// The cell index of the destination.
pub open spec fn dest_cell(map: GameMap, r: EntityRecord, dx: i32, dy: i32) -> int {
    map.idx(dest_x(r, dx), dest_y(r, dy))
}

/// `t` is an existing entity with hit points.
pub open spec fn is_fighter(recs: Seq<EntityRecord>, t: Entity) -> bool {
    alive_in(recs, t) && recs[t.0 as int].combat_stats is Some
}

/// The first fighter in `s` from position `k` on.
pub open spec fn first_fighter_from(recs: Seq<EntityRecord>, s: Seq<Entity>, k: int) -> Option<Entity>
    decreases s.len() - k,
{
    if k < 0 || k >= s.len() {
        None
    } else if is_fighter(recs, s[k]) {
        Some(s[k])
    } else {
        first_fighter_from(recs, s, k + 1)
    }
}

/// The first fighter standing on the destination, whom the move attacks instead.
pub open spec fn melee_target(map: GameMap, recs: Seq<EntityRecord>, r: EntityRecord, dx: i32, dy: i32) -> Option<Entity> {
    first_fighter_from(recs, map.tile_content@[dest_cell(map, r, dx, dy)]@, 0)
}

/// Handling this mover ends the whole move: it would leave the map, or it attacks.
pub open spec fn stops(map: GameMap, recs: Seq<EntityRecord>, r: EntityRecord, dx: i32, dy: i32) -> bool {
    is_mover(r) && (leaves_map(map, r, dx, dy) || melee_target(map, recs, r, dx, dy) is Some)
}

/// This mover steps onto its destination: it stays inside, attacks nobody, and the cell is free.
pub open spec fn steps(map: GameMap, recs: Seq<EntityRecord>, r: EntityRecord, dx: i32, dy: i32) -> bool {
    &&& is_mover(r)
    &&& !leaves_map(map, r, dx, dy)
    &&& melee_target(map, recs, r, dx, dy) is None
    &&& !map.blocked@[dest_cell(map, r, dx, dy)]
}

/// `v` clamped to `lo..=hi`.
pub open spec fn clamp(v: int, lo: int, hi: int) -> int {
    if v < lo { lo } else if v > hi { hi } else { v }
}

/// Where a stepping mover ends: its destination, clamped to the standard 80 by 50 screen.
pub open spec fn step_position(r: EntityRecord, dx: i32, dy: i32) -> Position {
    Position { x: clamp(dest_x(r, dx), 0, 79) as i32, y: clamp(dest_y(r, dy), 0, 49) as i32 }
}

/// The mover after stepping: moved, and its field of view due for recomputation.
pub open spec fn stepped(r: EntityRecord, dx: i32, dy: i32) -> EntityRecord {
    EntityRecord {
        position: Some(step_position(r, dx, dy)),
        viewshed: Some(Viewshed { dirty: true, ..r.viewshed.unwrap() }),
        ..r
    }
}

/// The id of the first mover that stops the move, or `k` if none among the first `k` does.
pub open spec fn first_stop(map: GameMap, recs: Seq<EntityRecord>, dx: i32, dy: i32, k: int) -> int
    decreases k,
{
    if k <= 0 {
        0
    } else if first_stop(map, recs, dx, dy, k - 1) < k - 1 {
        first_stop(map, recs, dx, dy, k - 1)
    } else if stops(map, recs, recs[k - 1], dx, dy) {
        k - 1
    } else {
        k
    }
}

/// Record `x` after the move, given that movers from id `stop` on are not handled
/// (the mover at `stop` itself ends the move).
pub open spec fn after_move(map: GameMap, recs: Seq<EntityRecord>, dx: i32, dy: i32, stop: int, x: int) -> EntityRecord {
    let r = recs[x];
    if x < stop && steps(map, recs, r, dx, dy) {
        stepped(r, dx, dy)
    } else if x == stop && stops(map, recs, r, dx, dy) && !leaves_map(map, r, dx, dy) {
        EntityRecord { wants_to_melee: Some(WantsToMelee { target: melee_target(map, recs, r, dx, dy).unwrap() }), ..r }
    } else {
        r
    }
}

/// The position of the last mover below `k` that stepped, if any.
pub open spec fn last_step(map: GameMap, recs: Seq<EntityRecord>, dx: i32, dy: i32, k: int) -> Option<Position>
    decreases k,
{
    if k <= 0 {
        None
    } else if steps(map, recs, recs[k - 1], dx, dy) {
        Some(step_position(recs[k - 1], dx, dy))
    } else {
        last_step(map, recs, dx, dy, k - 1)
    }
}

/// The destinations of the movers can be computed without overflowing `i32`.
pub open spec fn move_fits(recs: Seq<EntityRecord>, dx: i32, dy: i32) -> bool {
    forall|j: int| 0 <= j < recs.len() && is_mover(#[trigger] recs[j]) ==> {
        &&& i32::MIN <= dest_x(recs[j], dx) <= i32::MAX
        &&& i32::MIN <= dest_y(recs[j], dy) <= i32::MAX
    }
}

/// What `try_move_player` does to the world.
pub open spec fn moved(w0: World, w1: World, dx: i32, dy: i32) -> bool {
    let recs = w0.entities@;
    let stop = first_stop(w0.map, recs, dx, dy, recs.len() as int);
    &&& w1.entities@.len() == recs.len()
    &&& forall|x: int| 0 <= x < recs.len() ==> #[trigger] w1.entities@[x] == after_move(w0.map, recs, dx, dy, stop, x)
    &&& w1.player_pos == (match last_step(w0.map, recs, dx, dy, stop) {
            Some(p) => Point { x: p.x, y: p.y },
            None => w0.player_pos,
        })
    &&& w1.map == w0.map
    &&& w1.log == w0.log
    &&& w1.player_entity == w0.player_entity
    &&& w1.rng == w0.rng
    &&& w1.run_state == w0.run_state
}

/// The first fighter on cell `cell` (the cell's own list of entities, from its start).
fn find_fighter(ecs: &World, cell: usize) -> (r: Option<Entity>)
    requires
        ecs.wf(),
        cell < ecs.map.cell_count(),
    ensures
        r == first_fighter_from(ecs.entities@, ecs.map.tile_content@[cell as int]@, 0),
{
    let n = ecs.entities.len();
    let len = ecs.map.tile_content[cell].len();
    let mut k: usize = 0;
    while k < len
        invariant
            ecs.wf(),
            cell < ecs.map.cell_count(),
            n == ecs.entities@.len(),
            len == ecs.map.tile_content@[cell as int]@.len(),
            k <= len,
            first_fighter_from(ecs.entities@, ecs.map.tile_content@[cell as int]@, 0)
                == first_fighter_from(ecs.entities@, ecs.map.tile_content@[cell as int]@, k as int),
        decreases len - k,
    {
        let t = ecs.map.tile_content[cell][k];
        if t.0 < n && ecs.entities[t.0].alive && ecs.entities[t.0].combat_stats.is_some() {
            return Some(t);
        }
        k = k + 1;
    }
    None
}

/// Fighters depend only on which entities exist and which have hit points.
proof fn lemma_first_fighter_same(r1: Seq<EntityRecord>, r2: Seq<EntityRecord>, s: Seq<Entity>, k: int)
    requires
        r1.len() == r2.len(),
        forall|x: int| 0 <= x < r1.len() ==> (#[trigger] r1[x]).alive == r2[x].alive
            && r1[x].combat_stats == r2[x].combat_stats,
    ensures
        first_fighter_from(r1, s, k) == first_fighter_from(r2, s, k),
    decreases s.len() - k,
{
    if 0 <= k < s.len() {
        lemma_first_fighter_same(r1, r2, s, k + 1);
        if s[k].0 < r1.len() {
            assert(r1[s[k].0 as int].alive == r2[s[k].0 as int].alive);
        }
    }
}

pub(crate) proof fn lemma_first_stop_bounds(map: GameMap, recs: Seq<EntityRecord>, dx: i32, dy: i32, k: int)
    requires
        0 <= k,
    ensures
        0 <= first_stop(map, recs, dx, dy, k) <= k,
        first_stop(map, recs, dx, dy, k) < k ==> stops(map, recs, recs[first_stop(map, recs, dx, dy, k)], dx, dy),
        forall|j: int| 0 <= j < first_stop(map, recs, dx, dy, k) ==> !stops(map, recs, #[trigger] recs[j], dx, dy),
    decreases k,
{
    if k > 0 {
        lemma_first_stop_bounds(map, recs, dx, dy, k - 1);
    }
}

pub(crate) proof fn lemma_first_stop_stable(map: GameMap, recs: Seq<EntityRecord>, dx: i32, dy: i32, k: int, m: int)
    requires
        0 <= k <= m,
        first_stop(map, recs, dx, dy, k) < k,
    ensures
        first_stop(map, recs, dx, dy, m) == first_stop(map, recs, dx, dy, k),
    decreases m - k,
{
    if m > k {
        lemma_first_stop_stable(map, recs, dx, dy, k, m - 1);
    }
}

pub(crate) proof fn lemma_first_stop_none(map: GameMap, recs: Seq<EntityRecord>, dx: i32, dy: i32, k: int, m: int)
    requires
        0 <= k <= m,
        first_stop(map, recs, dx, dy, k) == k,
        forall|j: int| k <= j < m ==> !stops(map, recs, #[trigger] recs[j], dx, dy),
    ensures
        first_stop(map, recs, dx, dy, m) == m,
    decreases m - k,
{
    if m > k {
        lemma_first_stop_none(map, recs, dx, dy, k, m - 1);
    }
}

/// Moves each player by `(delta_x, delta_y)`, in id order. A player whose
/// destination leaves the map's inner area ends the move at once; one whose
/// destination holds a fighter attacks the first such fighter and ends the move;
/// otherwise it steps there unless the cell is blocked, its field of view turns
/// stale, and the player-position resource follows it.
pub fn try_move_player(delta_x: i32, delta_y: i32, ecs: &mut World)
    requires
        old(ecs).wf(),
        move_fits(old(ecs).entities@, delta_x, delta_y),
    ensures
        final(ecs).wf(),
        moved(*old(ecs), *final(ecs), delta_x, delta_y),
{
    let ghost recs = ecs.entities@;
    let ghost w = ecs.map.width as int;
    let ghost h = ecs.map.height as int;
    let n = ecs.entities.len();
    let dx = delta_x;
    let dy = delta_y;
    let mut i: usize = 0;
    let mut done = false;
    while i < n && !done
        invariant
            ecs.wf(),
            n == ecs.entities@.len(),
            n == recs.len(),
            recs == old(ecs).entities@,
            w == ecs.map.width,
            h == ecs.map.height,
            i <= n,
            move_fits(recs, dx, dy),
            done ==> moved(*old(ecs), *ecs, dx, dy),
            !done ==> first_stop(old(ecs).map, recs, dx, dy, i as int) == i,
            !done ==> forall|x: int| 0 <= x < n ==> #[trigger] ecs.entities@[x] == (if x < i {
                after_move(old(ecs).map, recs, dx, dy, n as int, x)
            } else {
                recs[x]
            }),
            !done ==> ecs.player_pos == (match last_step(old(ecs).map, recs, dx, dy, i as int) {
                Some(p) => Point { x: p.x, y: p.y },
                None => old(ecs).player_pos,
            }),
            ecs.map == old(ecs).map,
            ecs.log == old(ecs).log,
            ecs.player_entity == old(ecs).player_entity,
            ecs.rng == old(ecs).rng,
            ecs.run_state == old(ecs).run_state,
        decreases n - i + (if done { 0int } else { 1int }),
    {
        let ghost before = ecs.entities@;
        let ghost map = ecs.map;
        assert(before[i as int] == recs[i as int]);
        proof { lemma_record_at(before, w, h, i as int); }
        if ecs.entities[i].player && ecs.entities[i].position.is_some() && ecs.entities[i].viewshed.is_some() {
            let pos = ecs.entities[i].position.unwrap();
            assert(is_mover(recs[i as int]));
            let tx = pos.x + dx;
            let ty = pos.y + dy;
            if tx < 1 || tx > ecs.map.width - 1 || ty < 1 || ty > ecs.map.height - 1 {
                proof {
                    assert(stops(map, recs, recs[i as int], dx, dy));
                    assert(first_stop(map, recs, dx, dy, i + 1) == i);
                    lemma_first_stop_stable(map, recs, dx, dy, i + 1, n as int);
                    assert forall|x: int| 0 <= x < n implies #[trigger] ecs.entities@[x]
                        == after_move(map, recs, dx, dy, i as int, x) by {
                    }
                }
                done = true;
            } else {
                let dest = ecs.map.xy_idx(tx, ty);
                let target = find_fighter(ecs, dest);
                proof {
                    assert forall|x: int| 0 <= x < n implies (#[trigger] before[x]).alive == recs[x].alive
                        && before[x].combat_stats == recs[x].combat_stats by {
                    }
                    lemma_first_fighter_same(before, recs, map.tile_content@[dest as int]@, 0);
                }
                if let Some(t) = target {
                    proof { assert(stops(map, recs, recs[i as int], dx, dy)); }
                    ecs.entities[i].wants_to_melee = Some(WantsToMelee { target: t });
                    proof {
                        assert(ecs.entities@ =~= before.update(i as int, ecs.entities@[i as int]));
                        lemma_records_wf_update(before, w, h, i as int, ecs.entities@[i as int]);
                        assert(first_stop(map, recs, dx, dy, i + 1) == i);
                        lemma_first_stop_stable(map, recs, dx, dy, i + 1, n as int);
                        assert forall|x: int| 0 <= x < n implies #[trigger] ecs.entities@[x]
                            == after_move(map, recs, dx, dy, i as int, x) by {
                            if x != i {
                                assert(ecs.entities@[x] == before[x]);
                            }
                        }
                    }
                    done = true;
                } else {
                    proof { assert(!stops(map, recs, recs[i as int], dx, dy)); }
                    if !ecs.map.blocked[dest] {
                        let nx = if tx < 0 { 0 } else if tx > 79 { 79 } else { tx };
                        let ny = if ty < 0 { 0 } else if ty > 49 { 49 } else { ty };
                        ecs.entities[i].position = Some(Position { x: nx, y: ny });
                        let taken = ecs.entities[i].viewshed.take();
                        if let Some(v) = taken {
                            ecs.entities[i].viewshed = Some(Viewshed { dirty: true, ..v });
                        }
                        ecs.player_pos = Point { x: nx, y: ny };
                        proof {
                            assert(steps(map, recs, recs[i as int], dx, dy));
                            assert(ecs.entities@[i as int] == stepped(recs[i as int], dx, dy));
                            assert(ecs.entities@ =~= before.update(i as int, ecs.entities@[i as int]));
                            lemma_records_wf_update(before, w, h, i as int, ecs.entities@[i as int]);
                        }
                    }
                }
            }
        }
        if !done {
            proof {
                assert(first_stop(map, recs, dx, dy, i + 1) == i + 1);
                assert forall|x: int| 0 <= x < n implies #[trigger] ecs.entities@[x] == (if x < i + 1 {
                    after_move(map, recs, dx, dy, n as int, x)
                } else {
                    recs[x]
                }) by {
                    if x != i {
                        assert(ecs.entities@[x] == before[x]);
                    }
                }
            }
            i = i + 1;
        }
    }
}

// ---------------------------------------------------------------- picking up

/// The last item among the first `k` records that lies at `p`.
pub open spec fn last_item_at(recs: Seq<EntityRecord>, p: Point, k: int) -> Option<Entity>
    decreases k,
{
    if k <= 0 {
        None
    } else if recs[k - 1].item && recs[k - 1].position == Some(Position { x: p.x, y: p.y }) {
        Some(Entity((k - 1) as usize))
    } else {
        last_item_at(recs, p, k - 1)
    }
}

/// The item under the player: the one with the highest id at the player's position.
pub open spec fn item_under_player(w: World) -> Option<Entity> {
    last_item_at(w.entities@, w.player_pos, w.entities@.len() as int)
}

/// A pickup can be recorded: if there is an item under the player, the player exists.
pub open spec fn get_item_ready(w: World) -> bool {
    item_under_player(w) is Some ==> w.is_alive(w.player_entity)
}

pub open spec fn nothing_here_message() -> Seq<char> {
    "There is nothing here to pick up"@
}

/// What `get_item` does to the world.
pub open spec fn picked_up(w0: World, w1: World) -> bool {
    &&& w1.map == w0.map
    &&& w1.player_entity == w0.player_entity
    &&& w1.rng == w0.rng
    &&& w1.player_pos == w0.player_pos
    &&& w1.run_state == w0.run_state
    &&& match item_under_player(w0) {
        None => {
            &&& w1.entities@ == w0.entities@
            &&& w1.log.lines() == w0.log.lines().push(nothing_here_message())
        },
        Some(item) => {
            &&& w1.entities@ == w0.entities@.update(w0.player_entity.0 as int, EntityRecord {
                wants_to_pickup: Some(WantsToPickupItem { collected_by: w0.player_entity, item: item }),
                ..w0.rec(w0.player_entity)
            })
            &&& w1.log == w0.log
        },
    }
}

/// Whether a pickup can be recorded: no item under the player, or a living player.
pub fn get_item_ok(ecs: &World) -> (ok: bool)
    ensures
        ok == get_item_ready(*ecs),
{
    let n = ecs.entities.len();
    let player_pos = ecs.player_pos;
    let mut found = false;
    let mut i: usize = 0;
    while i < n
        invariant
            n == ecs.entities@.len(),
            player_pos == ecs.player_pos,
            i <= n,
            found == (last_item_at(ecs.entities@, player_pos, i as int) is Some),
        decreases n - i,
    {
        if ecs.entities[i].item && ecs.entities[i].position == Some(Position { x: player_pos.x, y: player_pos.y }) {
            found = true;
        }
        i = i + 1;
    }
    let p = ecs.player_entity.0;
    !found || (p < n && ecs.entities[p].alive)
}

/// Records the player's intent to pick up the item under it, or logs that there is none.
pub fn get_item(ecs: &mut World)
    requires
        old(ecs).wf(),
        get_item_ready(*old(ecs)),
    ensures
        final(ecs).wf(),
        picked_up(*old(ecs), *final(ecs)),
{
    let ghost recs = ecs.entities@;
    let n = ecs.entities.len();
    let player_pos = ecs.player_pos;
    let player_entity = ecs.player_entity;
    let mut be_pick: Option<Entity> = None;
    let mut i: usize = 0;
    while i < n
        invariant
            ecs.wf(),
            *ecs == *old(ecs),
            n == ecs.entities@.len(),
            recs == ecs.entities@,
            player_pos == ecs.player_pos,
            i <= n,
            be_pick == last_item_at(recs, player_pos, i as int),
        decreases n - i,
    {
        if ecs.entities[i].item && ecs.entities[i].position == Some(Position { x: player_pos.x, y: player_pos.y }) {
            be_pick = Some(Entity(i));
        }
        i = i + 1;
    }
    match be_pick {
        None => {
            let ghost lines0 = ecs.log.lines();
            ecs.log.entries.push(<String as StringExecFns>::from_str("There is nothing here to pick up"));
            assert(ecs.log.lines() =~= lines0.push(nothing_here_message()));
        },
        Some(item) => {
            let ghost before = ecs.entities@;
            proof { lemma_record_at(before, ecs.map.width as int, ecs.map.height as int, player_entity.0 as int); }
            ecs.entities[player_entity.0].wants_to_pickup = Some(WantsToPickupItem { collected_by: player_entity, item });
            proof {
                lemma_records_wf_update(before, ecs.map.width as int, ecs.map.height as int,
                    player_entity.0 as int, ecs.entities@[player_entity.0 as int]);
            }
        },
    }
}

// ---------------------------------------------------------------- keys

/// What a key press asks for.
#[derive(Clone, Copy, PartialEq, Eq, Structural, Debug)]
pub enum PlayerAction {
    Move(i32, i32),
    PickUp,
    OpenInventory,
    OpenDropMenu,
    Nothing,
}

/// The action of a key: movement keys (arrows, numpad, WASD and QEZC for diagonals),
/// F to pick up, B for the inventory, G to drop; no key or any other key does nothing.
pub open spec fn key_action(key: Option<Key>) -> PlayerAction {
    match key {
        None => PlayerAction::Nothing,
        Some(k) => match k {
            Key::Left | Key::Numpad4 | Key::A => PlayerAction::Move(-1i32, 0i32),
            Key::Right | Key::Numpad6 | Key::D => PlayerAction::Move(1i32, 0i32),
            Key::Up | Key::Numpad8 | Key::W => PlayerAction::Move(0i32, -1i32),
            Key::Down | Key::Numpad2 | Key::S => PlayerAction::Move(0i32, 1i32),
            Key::Q => PlayerAction::Move(-1i32, -1i32),
            Key::E => PlayerAction::Move(1i32, -1i32),
            Key::C => PlayerAction::Move(1i32, 1i32),
            Key::Z => PlayerAction::Move(-1i32, 1i32),
            Key::F => PlayerAction::PickUp,
            Key::B => PlayerAction::OpenInventory,
            Key::G => PlayerAction::OpenDropMenu,
            Key::Other => PlayerAction::Nothing,
        },
    }
}

pub fn action_of_key(key: Option<Key>) -> (a: PlayerAction)
    ensures
        a == key_action(key),
{
    match key {
        None => PlayerAction::Nothing,
        Some(k) => match k {
            Key::Left | Key::Numpad4 | Key::A => PlayerAction::Move(-1, 0),
            Key::Right | Key::Numpad6 | Key::D => PlayerAction::Move(1, 0),
            Key::Up | Key::Numpad8 | Key::W => PlayerAction::Move(0, -1),
            Key::Down | Key::Numpad2 | Key::S => PlayerAction::Move(0, 1),
            Key::Q => PlayerAction::Move(-1, -1),
            Key::E => PlayerAction::Move(1, -1),
            Key::C => PlayerAction::Move(1, 1),
            Key::Z => PlayerAction::Move(-1, 1),
            Key::F => PlayerAction::PickUp,
            Key::B => PlayerAction::OpenInventory,
            Key::G => PlayerAction::OpenDropMenu,
            Key::Other => PlayerAction::Nothing,
        },
    }
}

/// The run state that a key press leads to.
pub open spec fn key_run_state(key: Option<Key>) -> RunState {
    match key_action(key) {
        PlayerAction::Move(_, _) | PlayerAction::PickUp => RunState::PlayerTurn,
        PlayerAction::OpenInventory => RunState::ShowInventory,
        PlayerAction::OpenDropMenu => RunState::ShowDropItem,
        PlayerAction::Nothing => RunState::AwaitingInput,
    }
}

/// What a key press does to the world.
pub open spec fn input_handled(w0: World, w1: World, key: Option<Key>) -> bool {
    match key_action(key) {
        PlayerAction::Move(dx, dy) => moved(w0, w1, dx, dy),
        PlayerAction::PickUp => picked_up(w0, w1),
        _ => w1 == w0,
    }
}

/// Steps of at most one cell never overflow.
proof fn lemma_unit_move_fits(w: World, dx: i32, dy: i32)
    requires
        w.wf(),
        -1 <= dx <= 1,
        -1 <= dy <= 1,
    ensures
        move_fits(w.entities@, dx, dy),
{
    assert forall|j: int| 0 <= j < w.entities@.len() && is_mover(#[trigger] w.entities@[j]) implies {
        &&& i32::MIN <= dest_x(w.entities@[j], dx) <= i32::MAX
        &&& i32::MIN <= dest_y(w.entities@[j], dy) <= i32::MAX
    } by {
        lemma_record_at(w.entities@, w.map.width as int, w.map.height as int, j);
    }
}

/// Carries out a key press and returns the run state it leads to.
pub fn player_input(gs: &mut State, key: Option<Key>) -> (r: RunState)
    requires
        old(gs).ecs.wf(),
        key_action(key) == PlayerAction::PickUp ==> get_item_ready(old(gs).ecs),
    ensures
        final(gs).ecs.wf(),
        r == key_run_state(key),
        input_handled(old(gs).ecs, final(gs).ecs, key),
{
    match action_of_key(key) {
        PlayerAction::Move(dx, dy) => {
            proof { lemma_unit_move_fits(gs.ecs, dx, dy); }
            try_move_player(dx, dy, &mut gs.ecs);
            RunState::PlayerTurn
        },
        PlayerAction::PickUp => {
            get_item(&mut gs.ecs);
            RunState::PlayerTurn
        },
        PlayerAction::OpenInventory => RunState::ShowInventory,
        PlayerAction::OpenDropMenu => RunState::ShowDropItem,
        PlayerAction::Nothing => RunState::AwaitingInput,
    }
}

} // verus!
