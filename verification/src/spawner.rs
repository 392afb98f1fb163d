//! Creating the player, monsters and potions, and filling rooms with them.

use vstd::prelude::*;
use vstd::seq_lib::seq_to_set_is_finite;
use vstd::set_lib::{lemma_int_range, lemma_len_subset, lemma_set_disjoint_lens, set_int_range};
use vstd::string::StringExecFns;
use crate::codepage::{cp437, to_cp437};
use crate::components::{
    black, magenta, red, spec_black, spec_magenta, spec_red, spec_yellow, yellow, CombatStats, Entity,
    Position, Potion, Renderable, Viewshed,
};
use crate::map::{Rect, MAPWIDTH};
use crate::random::roll_dice;
use crate::world::{bare_record, EntityRecord, World};

verus! {

/// Monsters in a room: one die of this many faces plus two, less three.
pub const MAX_MONSTERS: i32 = 4;

/// Potions in a room: one die of this many faces plus two, less three.
pub const MAX_ITEM: i32 = 2;

/// The record without its name and viewshed, the two components that hold vectors.
pub open spec fn base_of(r: EntityRecord) -> EntityRecord {
    EntityRecord { name: None, viewshed: None, ..r }
}

/// A new viewshed: nothing seen yet, a range of 8, due for computation.
pub open spec fn fresh_viewshed(r: EntityRecord) -> bool {
    &&& r.viewshed is Some
    &&& r.viewshed.unwrap().visible_tiles@.len() == 0
    &&& r.viewshed.unwrap().range == 8
    &&& r.viewshed.unwrap().dirty
}

pub open spec fn is_player_record(r: EntityRecord, x: i32, y: i32) -> bool {
    &&& base_of(r) == (EntityRecord {
        position: Some(Position { x: x, y: y }),
        renderable: Some(Renderable { glyph: cp437('@'), fg: spec_yellow(), bg: spec_black(), render_order: 0 }),
        player: true,
        combat_stats: Some(CombatStats { max_hp: 30, hp: 30, defense: 3, power: 10 }),
        ..bare_record(true)
    })
    &&& fresh_viewshed(r)
    &&& r.name is Some && r.name.unwrap()@ == "Player"@
}

pub open spec fn is_monster_record(r: EntityRecord, x: i32, y: i32, glyph: u16, name: Seq<char>) -> bool {
    &&& base_of(r) == (EntityRecord {
        position: Some(Position { x: x, y: y }),
        renderable: Some(Renderable { glyph: glyph, fg: spec_red(), bg: spec_black(), render_order: 1 }),
        monster: true,
        block_tile: true,
        combat_stats: Some(CombatStats { max_hp: 16, hp: 16, defense: 1, power: 4 }),
        ..bare_record(true)
    })
    &&& fresh_viewshed(r)
    &&& r.name is Some && r.name.unwrap()@ == name
}

pub open spec fn is_orc_record(r: EntityRecord, x: i32, y: i32) -> bool {
    is_monster_record(r, x, y, cp437('o'), "Orc"@)
}

pub open spec fn is_goblin_record(r: EntityRecord, x: i32, y: i32) -> bool {
    is_monster_record(r, x, y, cp437('g'), "Goblin"@)
}

pub open spec fn is_potion_record(r: EntityRecord, x: i32, y: i32) -> bool {
    &&& base_of(r) == (EntityRecord {
        position: Some(Position { x: x, y: y }),
        renderable: Some(Renderable { glyph: cp437('¡'), fg: spec_magenta(), bg: spec_black(), render_order: 2 }),
        item: true,
        potion: Some(Potion { heal_amount: 8 }),
        ..bare_record(true)
    })
    &&& r.viewshed is None
    &&& r.name is Some && r.name.unwrap()@ == "Health Potion"@
}

/// One entity was added at the end of the table, its record satisfying `p`; the rest stands.
pub open spec fn added_one(w0: World, w1: World, e: Entity) -> bool {
    &&& e.0 == w0.entities@.len()
    &&& w1.entities@.len() == w0.entities@.len() + 1
    &&& w1.entities@.subrange(0, w0.entities@.len() as int) == w0.entities@
    &&& w1.map == w0.map
    &&& w1.player_entity == w0.player_entity
    &&& w1.player_pos == w0.player_pos
    &&& w1.run_state == w0.run_state
    &&& w1.log == w0.log
}

/// Room for one more entity, placed on the map.
pub open spec fn can_spawn_at(w: World, x: i32, y: i32) -> bool {
    &&& w.wf()
    &&& w.entities@.len() + 1 < usize::MAX
    &&& w.map.in_bounds(x as int, y as int)
}

fn new_viewshed() -> (v: Viewshed)
    ensures
        v.visible_tiles@.len() == 0,
        v.range == 8,
        v.dirty,
{
    Viewshed { visible_tiles: Vec::new(), range: 8, dirty: true }
}

/// Creates the player at `(player_x, player_y)`.
pub fn player(ecs: &mut World, player_x: i32, player_y: i32) -> (e: Entity)
    requires
        can_spawn_at(*old(ecs), player_x, player_y),
    ensures
        final(ecs).wf(),
        added_one(*old(ecs), *final(ecs), e),
        final(ecs).rng == old(ecs).rng,
        is_player_record(final(ecs).entities@.last(), player_x, player_y),
{
    let r = EntityRecord {
        alive: true,
        doomed: false,
        position: Some(Position { x: player_x, y: player_y }),
        renderable: Some(Renderable { glyph: to_cp437('@'), fg: yellow(), bg: black(), render_order: 0 }),
        player: true,
        viewshed: Some(new_viewshed()),
        monster: false,
        name: Some(<String as StringExecFns>::from_str("Player")),
        block_tile: false,
        combat_stats: Some(CombatStats { max_hp: 30, hp: 30, defense: 3, power: 10 }),
        wants_to_melee: None,
        suffer_damage: None,
        item: false,
        potion: None,
        in_backpack: None,
        wants_to_pickup: None,
        wants_to_drink: None,
        wants_to_drop: None,
        consumable: false,
    };
    let e = ecs.build_entity(r);
    assert(final(ecs).entities@.subrange(0, old(ecs).entities@.len() as int) =~= old(ecs).entities@);
    e
}

/// Creates a monster with the given glyph and name at `(x, y)`.
pub fn monster(ecs: &mut World, x: i32, y: i32, glyph: u16, name: &str) -> (e: Entity)
    requires
        can_spawn_at(*old(ecs), x, y),
    ensures
        final(ecs).wf(),
        added_one(*old(ecs), *final(ecs), e),
        final(ecs).rng == old(ecs).rng,
        is_monster_record(final(ecs).entities@.last(), x, y, glyph, name@),
{
    let r = EntityRecord {
        alive: true,
        doomed: false,
        position: Some(Position { x: x, y: y }),
        renderable: Some(Renderable { glyph: glyph, fg: red(), bg: black(), render_order: 1 }),
        player: false,
        viewshed: Some(new_viewshed()),
        monster: true,
        name: Some(<String as StringExecFns>::from_str(name)),
        block_tile: true,
        combat_stats: Some(CombatStats { max_hp: 16, hp: 16, defense: 1, power: 4 }),
        wants_to_melee: None,
        suffer_damage: None,
        item: false,
        potion: None,
        in_backpack: None,
        wants_to_pickup: None,
        wants_to_drink: None,
        wants_to_drop: None,
        consumable: false,
    };
    let e = ecs.build_entity(r);
    assert(final(ecs).entities@.subrange(0, old(ecs).entities@.len() as int) =~= old(ecs).entities@);
    e
}

/// Creates an orc at `(x, y)`.
pub fn orc(ecs: &mut World, x: i32, y: i32) -> (e: Entity)
    requires
        can_spawn_at(*old(ecs), x, y),
    ensures
        final(ecs).wf(),
        added_one(*old(ecs), *final(ecs), e),
        final(ecs).rng == old(ecs).rng,
        is_orc_record(final(ecs).entities@.last(), x, y),
{
    proof { reveal_strlit("Orc"); }
    monster(ecs, x, y, to_cp437('o'), "Orc")
}

/// Creates a goblin at `(x, y)`.
pub fn goblin(ecs: &mut World, x: i32, y: i32) -> (e: Entity)
    requires
        can_spawn_at(*old(ecs), x, y),
    ensures
        final(ecs).wf(),
        added_one(*old(ecs), *final(ecs), e),
        final(ecs).rng == old(ecs).rng,
        is_goblin_record(final(ecs).entities@.last(), x, y),
{
    proof { reveal_strlit("Goblin"); }
    monster(ecs, x, y, to_cp437('g'), "Goblin")
}

/// Creates the monster that a roll of a two-sided die picks: an orc on 1, else a goblin.
pub fn monster_for_roll(ecs: &mut World, x: i32, y: i32, roll: i32) -> (e: Entity)
    requires
        can_spawn_at(*old(ecs), x, y),
    ensures
        final(ecs).wf(),
        added_one(*old(ecs), *final(ecs), e),
        final(ecs).rng == old(ecs).rng,
        roll == 1 ==> is_orc_record(final(ecs).entities@.last(), x, y),
        roll != 1 ==> is_goblin_record(final(ecs).entities@.last(), x, y),
{
    if roll == 1 {
        orc(ecs, x, y)
    } else {
        goblin(ecs, x, y)
    }
}

/// Creates an orc or a goblin, chosen at random, at `(x, y)`.
pub fn random_monster(ecs: &mut World, x: i32, y: i32) -> (e: Entity)
    requires
        can_spawn_at(*old(ecs), x, y),
    ensures
        final(ecs).wf(),
        added_one(*old(ecs), *final(ecs), e),
        is_orc_record(final(ecs).entities@.last(), x, y) || is_goblin_record(final(ecs).entities@.last(), x, y),
{
    let ran = roll_dice(&mut ecs.rng, 1, 2);
    monster_for_roll(ecs, x, y, ran)
}

/// Creates a health potion at `(x, y)`.
pub fn health_potion(ecs: &mut World, x: i32, y: i32) -> (e: Entity)
    requires
        can_spawn_at(*old(ecs), x, y),
    ensures
        final(ecs).wf(),
        added_one(*old(ecs), *final(ecs), e),
        final(ecs).rng == old(ecs).rng,
        is_potion_record(final(ecs).entities@.last(), x, y),
{
    let r = EntityRecord {
        alive: true,
        doomed: false,
        position: Some(Position { x: x, y: y }),
        renderable: Some(Renderable { glyph: to_cp437('¡'), fg: magenta(), bg: black(), render_order: 2 }),
        player: false,
        viewshed: None,
        monster: false,
        name: Some(<String as StringExecFns>::from_str("Health Potion")),
        block_tile: false,
        combat_stats: None,
        wants_to_melee: None,
        suffer_damage: None,
        item: true,
        potion: Some(Potion { heal_amount: 8 }),
        in_backpack: None,
        wants_to_pickup: None,
        wants_to_drink: None,
        wants_to_drop: None,
        consumable: false,
    };
    let e = ecs.build_entity(r);
    assert(final(ecs).entities@.subrange(0, old(ecs).entities@.len() as int) =~= old(ecs).entities@);
    e
}

// ---------------------------------------------------------------- rooms

/// The spawn-point index of cell `(x, y)`, rows of `MAPWIDTH` cells.
pub open spec fn spawn_index(x: int, y: int) -> int {
    y * (MAPWIDTH as int) + x
}

/// The cell lies inside the room, past its top-left corner, up to its bottom-right one.
pub open spec fn in_room_interior(room: Rect, x: int, y: int) -> bool {
    room.x1 < x <= room.x2 && room.y1 < y <= room.y2
}

/// The room can be filled: it has an interior, it lies on the map and within the
/// standard map width (spawn points are packed with it), its spawn indices fit a
/// `usize`, and the entity table has room for what it may hold.
pub open spec fn room_fits(w: World, room: Rect) -> bool {
    &&& w.wf()
    &&& w.entities@.len() + 5 < usize::MAX
    &&& 0 <= room.x1 < room.x2
    &&& 0 <= room.y1 < room.y2
    &&& room.x2 < w.map.width
    &&& room.y2 < w.map.height
    &&& room.x2 < MAPWIDTH
    &&& spawn_index(room.x2 as int, room.y2 as int) < usize::MAX
}

/// The point lies inside the room.
pub open spec fn point_in_room(room: Rect, idx: int) -> bool {
    in_room_interior(room, idx % (MAPWIDTH as int), idx / (MAPWIDTH as int))
}

proof fn lemma_spawn_index_decode(x: int, y: int)
    requires
        0 <= x < MAPWIDTH,
        0 <= y,
    ensures
        spawn_index(x, y) % (MAPWIDTH as int) == x,
        spawn_index(x, y) / (MAPWIDTH as int) == y,
{
    vstd::arithmetic::div_mod::lemma_fundamental_div_mod_converse(spawn_index(x, y), MAPWIDTH as int, y, x);
}

fn contains_index(v: &Vec<usize>, idx: usize) -> (r: bool)
    ensures
        r == v@.contains(idx),
{
    let n = v.len();
    let mut k: usize = 0;
    while k < n
        invariant
            n == v@.len(),
            k <= n,
            forall|j: int| 0 <= j < k ==> v@[j] != idx,
        decreases n - k,
    {
        if v[k] == idx {
            assert(v@[k as int] == idx);
            return true;
        }
        k = k + 1;
    }
    false
}

/// How many of something a count asks for: the count, or none when it is negative.
pub open spec fn wanted(count: int) -> int {
    if count < 0 { 0 } else { count }
}

/// The number of cells inside the room.
pub open spec fn room_area(room: Rect) -> int {
    (room.x2 - room.x1) * (room.y2 - room.y1)
}

/// Every cell inside the room is among the taken spawn points.
pub open spec fn room_full(room: Rect, taken: Seq<usize>) -> bool {
    forall|x: int, y: int| #[trigger] in_room_interior(room, x, y) ==> taken.contains(spawn_index(x, y) as usize)
}

/// The room has an interior, within the standard map width, whose spawn indices fit a `usize`.
pub open spec fn room_shape_ok(room: Rect) -> bool {
    &&& 0 <= room.x1 < room.x2 < MAPWIDTH
    &&& 0 <= room.y1 < room.y2 < i32::MAX
    &&& spawn_index(room.x2 as int, room.y2 as int) < usize::MAX
}

proof fn lemma_room_full_grows(room: Rect, s: Seq<usize>, v: usize)
    requires
        room_full(room, s),
    ensures
        room_full(room, s.push(v)),
{
    assert forall|x: int, y: int| #[trigger] in_room_interior(room, x, y) implies s.push(v).contains(spawn_index(x, y) as usize) by {
        let k = choose|k: int| 0 <= k < s.len() && s[k] == spawn_index(x, y) as usize;
        assert(s.push(v)[k] == s[k]);
    }
}

/// The spawn indices of the cells in row `y` of the room.
pub open spec fn row_cells(room: Rect, y: int) -> Set<int> {
    set_int_range(spawn_index(room.x1 + 1, y), spawn_index(room.x2 + 1, y))
}

/// The spawn indices of the cells in the first `k` rows of the room.
pub open spec fn rows_cells(room: Rect, k: nat) -> Set<int>
    decreases k,
{
    if k == 0 {
        Set::empty()
    } else {
        rows_cells(room, (k - 1) as nat) + row_cells(room, room.y1 + k)
    }
}

proof fn lemma_rows_cells(room: Rect, k: nat)
    requires
        room_shape_ok(room),
    ensures
        rows_cells(room, k).finite(),
        rows_cells(room, k).len() == k * (room.x2 - room.x1),
        forall|c: int| #[trigger] rows_cells(room, k).contains(c) ==> c < spawn_index(0, room.y1 + k + 1),
        forall|c: int| #[trigger] rows_cells(room, k).contains(c) ==> exists|x: int, y: int|
            room.x1 < x <= room.x2 && room.y1 < y <= room.y1 + k && c == #[trigger] spawn_index(x, y),
    decreases k,
{
    if k > 0 {
        let km = (k - 1) as nat;
        lemma_rows_cells(room, km);
        let y = room.y1 + k;
        let row = row_cells(room, y);
        lemma_int_range(spawn_index(room.x1 + 1, y), spawn_index(room.x2 + 1, y));
        assert(rows_cells(room, km).disjoint(row));
        lemma_set_disjoint_lens(rows_cells(room, km), row);
        assert(km * (room.x2 - room.x1) + (room.x2 - room.x1) == k * (room.x2 - room.x1)) by (nonlinear_arith)
            requires km + 1 == k;
        assert forall|c: int| #[trigger] rows_cells(room, k).contains(c) implies exists|x: int, y2: int|
            room.x1 < x <= room.x2 && room.y1 < y2 <= room.y1 + k && c == #[trigger] spawn_index(x, y2) by {
            if row.contains(c) {
                assert(c == spawn_index(c - spawn_index(0, y), y));
            }
        }
    }
}

/// A room whose cells are all taken has at least as many taken points as it has cells.
pub proof fn lemma_full_room_takes_its_cells(room: Rect, taken: Seq<usize>)
    requires
        room_shape_ok(room),
        room_full(room, taken),
    ensures
        taken.len() >= room_area(room),
{
    let h = (room.y2 - room.y1) as nat;
    lemma_rows_cells(room, h);
    let ints = taken.map_values(|v: usize| v as int);
    let taken_set = ints.to_set();
    assert forall|c: int| #[trigger] rows_cells(room, h).contains(c) implies taken_set.contains(c) by {
        let (x, y) = choose|x: int, y: int|
            room.x1 < x <= room.x2 && room.y1 < y <= room.y1 + h && c == #[trigger] spawn_index(x, y);
        assert(in_room_interior(room, x, y));
        assert(spawn_index(x, y) <= spawn_index(room.x2 as int, room.y2 as int));
        let i = choose|i: int| 0 <= i < taken.len() && taken[i] == spawn_index(x, y) as usize;
        assert(ints[i] == c);
    }
    seq_to_set_is_finite(ints);
    lemma_len_subset(rows_cells(room, h), taken_set);
    ints.lemma_cardinality_of_set();
    assert(room_area(room) == h * (room.x2 - room.x1)) by (nonlinear_arith)
        requires h == room.y2 - room.y1;
}

/// The first cell of the room, row by row, that is not among `taken`, as a spawn index;
/// `None` exactly when every cell of the room is taken.
fn first_free_cell(room: &Rect, taken: &Vec<usize>) -> (r: Option<usize>)
    requires
        room_shape_ok(*room),
    ensures
        r is Some ==> !taken@.contains(r.unwrap()) && point_in_room(*room, r.unwrap() as int),
        r is None ==> room_full(*room, taken@),
{
    let mut y = room.y1 + 1;
    while y <= room.y2
        invariant
            room_shape_ok(*room),
            room.y1 + 1 <= y <= room.y2 + 1,
            forall|cx: int, cy: int| #[trigger] in_room_interior(*room, cx, cy) && cy < y
                ==> taken@.contains(spawn_index(cx, cy) as usize),
        decreases room.y2 + 1 - y,
    {
        let mut x = room.x1 + 1;
        while x <= room.x2
            invariant
                room_shape_ok(*room),
                room.y1 < y <= room.y2,
                room.x1 + 1 <= x <= room.x2 + 1,
                forall|cx: int, cy: int| #[trigger] in_room_interior(*room, cx, cy) && (cy < y || (cy == y && cx < x))
                    ==> taken@.contains(spawn_index(cx, cy) as usize),
            decreases room.x2 + 1 - x,
        {
            assert(spawn_index(x as int, y as int) <= spawn_index(room.x2 as int, room.y2 as int)) by (nonlinear_arith)
                requires 0 <= x <= room.x2, 0 <= y <= room.y2;
            let idx = (y as usize) * MAPWIDTH + (x as usize);
            proof { lemma_spawn_index_decode(x as int, y as int); }
            if !contains_index(taken, idx) {
                assert(point_in_room(*room, idx as int));
                return Some(idx);
            }
            x = x + 1;
        }
        y = y + 1;
    }
    None
}

/// Where a draw of offsets `(rx, ry)` lands, cell `(room.x1 + rx, room.y1 + ry)` as a
/// spawn index: accepted when that cell is not taken yet, else `None` (drawn again).
pub open spec fn accepted(room: Rect, taken: Seq<usize>, rx: int, ry: int) -> Option<usize> {
    let c = spawn_index(room.x1 + rx, room.y1 + ry) as usize;
    if taken.contains(c) { None } else { Some(c) }
}

/// Decides one draw of a cell search: the cell that offsets `(rx, ry)` (each a roll of
/// one die with as many faces as the room is wide, resp. high) land on, if it is not
/// taken yet; `None` means the draw is rejected and drawn again.
pub fn accept_draw(room: &Rect, taken: &Vec<usize>, rx: i32, ry: i32) -> (r: Option<usize>)
    requires
        room_shape_ok(*room),
        1 <= rx <= room.x2 - room.x1,
        1 <= ry <= room.y2 - room.y1,
    ensures
        r == accepted(*room, taken@, rx as int, ry as int),
        r is Some ==> point_in_room(*room, r.unwrap() as int),
{
    let x = room.x1 + rx;
    let y = room.y1 + ry;
    assert(spawn_index(x as int, y as int) <= spawn_index(room.x2 as int, room.y2 as int)) by (nonlinear_arith)
        requires 0 <= x <= room.x2, 0 <= y <= room.y2;
    let idx = (y as usize) * MAPWIDTH + (x as usize);
    proof { lemma_spawn_index_decode(x as int, y as int); }
    if contains_index(taken, idx) {
        None
    } else {
        Some(idx)
    }
}

/// Draws cells inside the room until one that is not in `taken` comes up (each draw
/// decided by `accept_draw`), and returns its spawn index. The search must end for the
/// verifier, so after `u64::MAX` rejected draws in a row it takes the first free cell
/// row by row instead; it returns `None` only when every cell is taken.
fn pick_free_cell(ecs: &mut World, room: &Rect, taken: &Vec<usize>) -> (r: Option<usize>)
    requires
        room_fits(*old(ecs), *room),
    ensures
        final(ecs).wf(),
        final(ecs).entities == old(ecs).entities,
        final(ecs).map == old(ecs).map,
        final(ecs).player_entity == old(ecs).player_entity,
        final(ecs).player_pos == old(ecs).player_pos,
        final(ecs).run_state == old(ecs).run_state,
        final(ecs).log == old(ecs).log,
        r is Some ==> !taken@.contains(r.unwrap()) && point_in_room(*room, r.unwrap() as int),
        r is None ==> room_full(*room, taken@),
{
    let mut tries: u64 = 0;
    let mut found: Option<usize> = None;
    while tries < u64::MAX && found.is_none()
        invariant
            room_fits(*old(ecs), *room),
            ecs.wf(),
            ecs.entities == old(ecs).entities,
            ecs.map == old(ecs).map,
            ecs.player_entity == old(ecs).player_entity,
            ecs.player_pos == old(ecs).player_pos,
            ecs.run_state == old(ecs).run_state,
            ecs.log == old(ecs).log,
            found is Some ==> !taken@.contains(found.unwrap()) && point_in_room(*room, found.unwrap() as int),
        decreases u64::MAX - tries + (if found is None { 1int } else { 0int }),
    {
        let rx = roll_dice(&mut ecs.rng, 1, room.x2 - room.x1);
        let ry = roll_dice(&mut ecs.rng, 1, room.y2 - room.y1);
        found = accept_draw(room, taken, rx, ry);
        if found.is_none() {
            tries = tries + 1;
        }
    }
    if found.is_none() {
        found = first_free_cell(room, taken);
    }
    found
}

/// Picks `count` cells inside the room, pairwise different, fewer only when every
/// cell of the room is taken.
fn pick_cells(ecs: &mut World, room: &Rect, count: i32) -> (points: Vec<usize>)
    requires
        room_fits(*old(ecs), *room),
    ensures
        final(ecs).wf(),
        final(ecs).entities == old(ecs).entities,
        final(ecs).map == old(ecs).map,
        final(ecs).player_entity == old(ecs).player_entity,
        final(ecs).player_pos == old(ecs).player_pos,
        final(ecs).run_state == old(ecs).run_state,
        final(ecs).log == old(ecs).log,
        points@.len() <= wanted(count as int),
        points@.len() == wanted(count as int) || room_full(*room, points@),
        forall|i: int| 0 <= i < points@.len() ==> point_in_room(*room, #[trigger] points@[i] as int),
        forall|i: int, j: int| 0 <= i < j < points@.len() ==> #[trigger] points@[i] != #[trigger] points@[j],
{
    let mut points: Vec<usize> = Vec::new();
    let mut i: i32 = 0;
    while i < count
        invariant
            room_fits(*old(ecs), *room),
            ecs.wf(),
            ecs.entities == old(ecs).entities,
            ecs.map == old(ecs).map,
            ecs.player_entity == old(ecs).player_entity,
            ecs.player_pos == old(ecs).player_pos,
            ecs.run_state == old(ecs).run_state,
            ecs.log == old(ecs).log,
            0 <= i,
            i <= count || i == 0,
            points@.len() <= i,
            points@.len() == i || room_full(*room, points@),
            forall|k: int| 0 <= k < points@.len() ==> point_in_room(*room, #[trigger] points@[k] as int),
            forall|a: int, b: int| 0 <= a < b < points@.len() ==> #[trigger] points@[a] != #[trigger] points@[b],
        decreases count - i,
    {
        let picked = pick_free_cell(ecs, room, &points);
        if let Some(idx) = picked {
            let ghost prev = points@;
            points.push(idx);
            proof {
                if room_full(*room, prev) {
                    lemma_room_full_grows(*room, prev, idx);
                }
            }
            assert forall|a: int, b: int| 0 <= a < b < points@.len() implies #[trigger] points@[a] != #[trigger] points@[b] by {
                if b == prev.len() && points@[a] == points@[b] {
                    assert(prev[a] == idx);
                    assert(prev.contains(idx));
                }
            }
        }
        i = i + 1;
    }
    points
}

/// The cell decodes to a point of the map.
pub open spec fn cell_on_map(w: World, cell: usize) -> bool {
    w.map.in_bounds((cell % MAPWIDTH) as int, (cell / MAPWIDTH) as int)
}

/// The record is the monster that `roll` picks at `cell`: an orc on 1, else a goblin.
pub open spec fn monster_at_cell(r: EntityRecord, cell: usize, roll: i32) -> bool {
    let x = (cell % MAPWIDTH) as i32;
    let y = (cell / MAPWIDTH) as i32;
    if roll == 1 { is_orc_record(r, x, y) } else { is_goblin_record(r, x, y) }
}

/// The record is a health potion at `cell`.
pub open spec fn potion_at_cell(r: EntityRecord, cell: usize) -> bool {
    is_potion_record(r, (cell % MAPWIDTH) as i32, (cell / MAPWIDTH) as i32)
}

/// What `fill_room_at` does: one monster per monster cell, in order, of the kind its
/// roll picks, then one health potion per potion cell; nothing else changes.
pub open spec fn room_filled_at(w0: World, w1: World, monster_cells: Seq<usize>, monster_rolls: Seq<i32>,
    potion_cells: Seq<usize>) -> bool {
    let n0 = w0.entities@.len() as int;
    let m = monster_cells.len() as int;
    let p = potion_cells.len() as int;
    &&& w1.entities@.len() == n0 + m + p
    &&& w1.entities@.subrange(0, n0) == w0.entities@
    &&& forall|i: int| n0 <= i < n0 + m
            ==> monster_at_cell(#[trigger] w1.entities@[i], monster_cells[i - n0], monster_rolls[i - n0])
    &&& forall|i: int| n0 + m <= i < n0 + m + p ==> potion_at_cell(#[trigger] w1.entities@[i], potion_cells[i - n0 - m])
    &&& w1.map == w0.map
    &&& w1.player_entity == w0.player_entity
    &&& w1.player_pos == w0.player_pos
    &&& w1.run_state == w0.run_state
    &&& w1.log == w0.log
}

/// Creates a monster on each monster cell (an orc where its roll is 1, else a goblin),
/// then a health potion on each potion cell; cells are spawn indices `y * MAPWIDTH + x`.
pub fn fill_room_at(ecs: &mut World, monster_cells: &Vec<usize>, monster_rolls: &Vec<i32>, potion_cells: &Vec<usize>)
    requires
        old(ecs).wf(),
        monster_rolls@.len() == monster_cells@.len(),
        old(ecs).entities@.len() + monster_cells@.len() + potion_cells@.len() < usize::MAX,
        forall|k: int| 0 <= k < monster_cells@.len() ==> cell_on_map(*old(ecs), #[trigger] monster_cells@[k]),
        forall|k: int| 0 <= k < potion_cells@.len() ==> cell_on_map(*old(ecs), #[trigger] potion_cells@[k]),
    ensures
        final(ecs).wf(),
        room_filled_at(*old(ecs), *final(ecs), monster_cells@, monster_rolls@, potion_cells@),
        final(ecs).rng == old(ecs).rng,
{
    let ghost w0 = *ecs;
    let ghost n0 = ecs.entities@.len() as int;
    let m = monster_cells.len();
    let p = potion_cells.len();
    let mut k: usize = 0;
    while k < m
        invariant
            k <= m,
            m == monster_cells@.len(),
            p == potion_cells@.len(),
            monster_rolls@.len() == m,
            ecs.wf(),
            n0 == w0.entities@.len(),
            n0 + m + p < usize::MAX,
            ecs.entities@.len() == n0 + k,
            ecs.entities@.subrange(0, n0) == w0.entities@,
            forall|j: int| 0 <= j < m ==> cell_on_map(w0, #[trigger] monster_cells@[j]),
            forall|i: int| n0 <= i < n0 + k
                ==> monster_at_cell(#[trigger] ecs.entities@[i], monster_cells@[i - n0], monster_rolls@[i - n0]),
            ecs.map == w0.map,
            ecs.player_entity == w0.player_entity,
            ecs.rng == w0.rng,
            ecs.player_pos == w0.player_pos,
            ecs.run_state == w0.run_state,
            ecs.log == w0.log,
        decreases m - k,
    {
        let idx = monster_cells[k];
        let x = idx % MAPWIDTH;
        let y = idx / MAPWIDTH;
        assert(cell_on_map(w0, monster_cells@[k as int]));
        let ghost before = ecs.entities@;
        monster_for_roll(ecs, x as i32, y as i32, monster_rolls[k]);
        assert forall|i: int| n0 <= i < n0 + k + 1 implies monster_at_cell(#[trigger] ecs.entities@[i],
            monster_cells@[i - n0], monster_rolls@[i - n0]) by {
            if i < n0 + k {
                assert(ecs.entities@[i] == ecs.entities@.subrange(0, before.len() as int)[i]);
            }
        }
        assert(ecs.entities@.subrange(0, n0) =~= ecs.entities@.subrange(0, before.len() as int).subrange(0, n0));
        k = k + 1;
    }
    let mut j: usize = 0;
    while j < p
        invariant
            j <= p,
            m == monster_cells@.len(),
            p == potion_cells@.len(),
            monster_rolls@.len() == m,
            ecs.wf(),
            n0 == w0.entities@.len(),
            n0 + m + p < usize::MAX,
            ecs.entities@.len() == n0 + m + j,
            ecs.entities@.subrange(0, n0) == w0.entities@,
            forall|q: int| 0 <= q < p ==> cell_on_map(w0, #[trigger] potion_cells@[q]),
            forall|i: int| n0 <= i < n0 + m
                ==> monster_at_cell(#[trigger] ecs.entities@[i], monster_cells@[i - n0], monster_rolls@[i - n0]),
            forall|i: int| n0 + m <= i < n0 + m + j ==> potion_at_cell(#[trigger] ecs.entities@[i], potion_cells@[i - n0 - m]),
            ecs.map == w0.map,
            ecs.player_entity == w0.player_entity,
            ecs.rng == w0.rng,
            ecs.player_pos == w0.player_pos,
            ecs.run_state == w0.run_state,
            ecs.log == w0.log,
        decreases p - j,
    {
        let idx = potion_cells[j];
        let x = idx % MAPWIDTH;
        let y = idx / MAPWIDTH;
        assert(cell_on_map(w0, potion_cells@[j as int]));
        let ghost before = ecs.entities@;
        health_potion(ecs, x as i32, y as i32);
        assert forall|i: int| n0 <= i < n0 + m implies monster_at_cell(#[trigger] ecs.entities@[i],
            monster_cells@[i - n0], monster_rolls@[i - n0]) by {
            assert(ecs.entities@[i] == ecs.entities@.subrange(0, before.len() as int)[i]);
        }
        assert forall|i: int| n0 + m <= i < n0 + m + j + 1 implies potion_at_cell(#[trigger] ecs.entities@[i],
            potion_cells@[i - n0 - m]) by {
            if i < n0 + m + j {
                assert(ecs.entities@[i] == ecs.entities@.subrange(0, before.len() as int)[i]);
            }
        }
        assert(ecs.entities@.subrange(0, n0) =~= ecs.entities@.subrange(0, before.len() as int).subrange(0, n0));
        j = j + 1;
    }
}

/// What was drawn for a room with the given counts: monster cells with one kind roll
/// (1 or 2) each, and potion cells, all inside the room, monster cells pairwise
/// different and potion cells pairwise different, each list as long as its count asks
/// (none for a count below one).
pub open spec fn room_drawn(room: Rect, monsters_number: int, item_number: int, monster_cells: Seq<usize>,
    monster_rolls: Seq<i32>, potion_cells: Seq<usize>) -> bool {
    &&& monster_rolls.len() == monster_cells.len()
    &&& forall|k: int| 0 <= k < monster_rolls.len() ==> 1 <= #[trigger] monster_rolls[k] <= 2
    &&& forall|k: int| 0 <= k < monster_cells.len() ==> point_in_room(room, #[trigger] monster_cells[k] as int)
    &&& forall|k: int| 0 <= k < potion_cells.len() ==> point_in_room(room, #[trigger] potion_cells[k] as int)
    &&& forall|a: int, b: int| 0 <= a < b < monster_cells.len() ==> #[trigger] monster_cells[a] != #[trigger] monster_cells[b]
    &&& forall|a: int, b: int| 0 <= a < b < potion_cells.len() ==> #[trigger] potion_cells[a] != #[trigger] potion_cells[b]
    &&& monster_cells.len() == wanted(monsters_number)
    &&& potion_cells.len() == wanted(item_number)
}

/// The room was filled with the given counts: some cells and kind rolls were drawn
/// for them, and the monsters and potions stand on exactly those cells.
pub open spec fn room_spawned(w0: World, w1: World, room: Rect, monsters_number: int, item_number: int) -> bool {
    exists|mc: Seq<usize>, rolls: Seq<i32>, pc: Seq<usize>|
        room_drawn(room, monsters_number, item_number, mc, rolls, pc) && #[trigger] room_filled_at(w0, w1, mc, rolls, pc)
}

proof fn lemma_cells_on_map(w: World, room: Rect, cells: Seq<usize>)
    requires
        room_fits(w, room),
        forall|k: int| 0 <= k < cells.len() ==> point_in_room(room, #[trigger] cells[k] as int),
    ensures
        forall|k: int| 0 <= k < cells.len() ==> cell_on_map(w, #[trigger] cells[k]),
{
}

/// Fills a room with `monsters_number` monsters and `item_number` health potions:
/// draws pairwise different cells inside the room for the monsters, then for the
/// potions, then one roll of a two-sided die per monster for its kind, and creates
/// them with `fill_room_at`. The room must have a cell for each monster and for each
/// potion, else the search for a free cell could never end.
pub fn spawn_room_with_counts(ecs: &mut World, room: &Rect, monsters_number: i32, item_number: i32)
    requires
        room_fits(*old(ecs), *room),
        old(ecs).entities@.len() + wanted(monsters_number as int) + wanted(item_number as int) < usize::MAX,
        wanted(monsters_number as int) <= room_area(*room),
        wanted(item_number as int) <= room_area(*room),
    ensures
        final(ecs).wf(),
        room_spawned(*old(ecs), *final(ecs), *room, monsters_number as int, item_number as int),
{
    let ghost w0 = *ecs;
    let monster_cells = pick_cells(ecs, room, monsters_number);
    let potion_cells = pick_cells(ecs, room, item_number);
    let m = monster_cells.len();
    let mut rolls: Vec<i32> = Vec::new();
    let mut k: usize = 0;
    while k < m
        invariant
            k <= m,
            rolls@.len() == k,
            forall|q: int| 0 <= q < k ==> 1 <= #[trigger] rolls@[q] <= 2,
            ecs.wf(),
            ecs.entities == w0.entities,
            ecs.map == w0.map,
            ecs.player_entity == w0.player_entity,
            ecs.player_pos == w0.player_pos,
            ecs.run_state == w0.run_state,
            ecs.log == w0.log,
        decreases m - k,
    {
        let roll = roll_dice(&mut ecs.rng, 1, 2);
        rolls.push(roll);
        k = k + 1;
    }
    proof {
        lemma_cells_on_map(w0, *room, monster_cells@);
        lemma_cells_on_map(w0, *room, potion_cells@);
        if room_full(*room, monster_cells@) {
            lemma_full_room_takes_its_cells(*room, monster_cells@);
        }
        if room_full(*room, potion_cells@) {
            lemma_full_room_takes_its_cells(*room, potion_cells@);
        }
    }
    fill_room_at(ecs, &monster_cells, &rolls, &potion_cells);
    assert(room_drawn(*room, monsters_number as int, item_number as int, monster_cells@, rolls@, potion_cells@));
    assert(room_filled_at(w0, *ecs, monster_cells@, rolls@, potion_cells@));
}

/// Fills a room: rolls how many monsters (one die of six faces, less three) and potions
/// (one die of four faces, less three) to place, then fills the room with those counts.
/// The room must have at least three cells, room for the most monsters that can be
/// rolled: otherwise the search for a free cell could never end.
pub fn spawn_room(ecs: &mut World, room: &Rect)
    requires
        room_fits(*old(ecs), *room),
        room_area(*room) >= 3,
    ensures
        final(ecs).wf(),
        exists|monsters_number: int, item_number: int|
            -2 <= monsters_number <= 3 && -2 <= item_number <= 1
            && #[trigger] room_spawned(*old(ecs), *final(ecs), *room, monsters_number, item_number),
{
    let ghost w0 = *ecs;
    let monsters_number = roll_dice(&mut ecs.rng, 1, MAX_MONSTERS + 2) - 3;
    let item_number = roll_dice(&mut ecs.rng, 1, MAX_ITEM + 2) - 3;
    let ghost wr = *ecs;
    spawn_room_with_counts(ecs, room, monsters_number, item_number);
    proof {
        let (mc, rolls, pc) = choose|mc: Seq<usize>, rolls: Seq<i32>, pc: Seq<usize>|
            room_drawn(*room, monsters_number as int, item_number as int, mc, rolls, pc)
            && #[trigger] room_filled_at(wr, *ecs, mc, rolls, pc);
        assert(room_filled_at(w0, *ecs, mc, rolls, pc));
        assert(room_spawned(w0, *ecs, *room, monsters_number as int, item_number as int));
    }
}

} // verus!
