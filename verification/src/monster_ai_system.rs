//! Monster decisions. A monster that sees the player attacks it when adjacent, and
//! otherwise follows a path towards it. Path-finding runs on the map between two
//! monsters' turns, so the caller asks `plan` what a monster needs, finds a path when
//! it is asked to, and hands the result to `act`.

use vstd::prelude::*;
use crate::components::{Entity, Point, Position, Viewshed, WantsToMelee};
use crate::inventory_system::alive_in;
use crate::map::{lemma_idx_in_range, GameMap};
use crate::world::{lemma_record_at, lemma_records_wf_update, EntityRecord, RunState, World};

verus! {

pub struct MonsterAI {}

/// A path found between two cells; `steps` starts with the start cell.
pub struct NavPath {
    pub success: bool,
    pub steps: Vec<usize>,
}

/// What a monster does this turn.
#[derive(Clone, Copy, PartialEq, Eq, Structural, Debug)]
pub enum MonsterPlan {
    /// Nothing: it is not the monsters' turn, the entity is not a monster, or it cannot see the player.
    Idle,
    /// It stands next to the player and attacks.
    Attack,
    /// It needs a path from cell `start` to the player's cell `end`.
    Chase { start: usize, end: usize },
}

/// The record is driven by the monster AI: a monster with a viewshed and a position.
pub open spec fn is_ai_monster(r: EntityRecord) -> bool {
    r.monster && r.viewshed is Some && r.position is Some
}

/// The monster sees cell `p`.
pub open spec fn sees(r: EntityRecord, p: Point) -> bool {
    r.viewshed.unwrap().visible_tiles@.contains(p)
}

/// The Pythagorean distance between the cells is below 1.5: the squared distance is
/// at most 2, so the cells touch, diagonals included.
pub open spec fn within_reach(a: Position, p: Point) -> bool {
    (a.x - p.x) * (a.x - p.x) + (a.y - p.y) * (a.y - p.y) <= 2
}

/// The plan of entity `e` in world `w`.
pub open spec fn monster_plan(w: World, e: Entity) -> MonsterPlan {
    let r = w.rec(e);
    if w.run_state != RunState::MonsterTurn || !alive_in(w.entities@, e) || !is_ai_monster(r)
        || !sees(r, w.player_pos) {
        MonsterPlan::Idle
    } else if within_reach(r.position.unwrap(), w.player_pos) {
        MonsterPlan::Attack
    } else {
        MonsterPlan::Chase {
            start: w.map.idx(r.position.unwrap().x as int, r.position.unwrap().y as int) as usize,
            end: w.map.idx(w.player_pos.x as int, w.player_pos.y as int) as usize,
        }
    }
}

/// The path moves the monster: it was found and has a step after the start.
pub open spec fn path_moves(path: Option<NavPath>) -> bool {
    path is Some && path.unwrap().success && path.unwrap().steps@.len() > 1
}

/// The cell the monster steps to (meaningful when `path_moves`).
pub open spec fn next_cell(path: Option<NavPath>) -> int {
    path.unwrap().steps@[1] as int
}

/// A path the monster can follow: its next cell lies on the map (and fits an `i32`).
pub open spec fn path_ok(map: GameMap, path: Option<NavPath>) -> bool {
    path_moves(path) ==> next_cell(path) < map.cell_count() && next_cell(path) <= i32::MAX
}

/// The monster's record after stepping to `cell`, with its field of view due for recomputation.
pub open spec fn chased(r: EntityRecord, map: GameMap, cell: int) -> EntityRecord {
    EntityRecord {
        position: Some(Position { x: (cell % (map.width as int)) as i32, y: (cell / (map.width as int)) as i32 }),
        viewshed: Some(Viewshed { dirty: true, ..r.viewshed.unwrap() }),
        ..r
    }
}

/// What `act` does to the world for entity `e`, given the path it was handed.
pub open spec fn monster_acted(w0: World, w1: World, e: Entity, path: Option<NavPath>) -> bool {
    &&& w1.player_entity == w0.player_entity
    &&& w1.rng == w0.rng
    &&& w1.player_pos == w0.player_pos
    &&& w1.run_state == w0.run_state
    &&& w1.log == w0.log
    &&& match monster_plan(w0, e) {
        MonsterPlan::Idle => w1.entities@ == w0.entities@ && w1.map == w0.map,
        MonsterPlan::Attack => {
            &&& w1.map == w0.map
            &&& w1.entities@ == w0.entities@.update(e.0 as int, EntityRecord {
                wants_to_melee: Some(WantsToMelee { target: w0.player_entity }),
                ..w0.rec(e)
            })
        },
        MonsterPlan::Chase { start, end } => if path_moves(path) {
            &&& w1.entities@ == w0.entities@.update(e.0 as int, chased(w0.rec(e), w0.map, next_cell(path)))
            &&& w1.map.blocked@ == w0.map.blocked@.update(start as int, false).update(next_cell(path), true)
            &&& w1.map.tiles == w0.map.tiles
            &&& w1.map.rooms == w0.map.rooms
            &&& w1.map.width == w0.map.width
            &&& w1.map.height == w0.map.height
            &&& w1.map.revealed_tiles == w0.map.revealed_tiles
            &&& w1.map.visible_tiles == w0.map.visible_tiles
            &&& w1.map.tile_content == w0.map.tile_content
        } else {
            w1.entities@ == w0.entities@ && w1.map == w0.map
        },
    }
}

/// Whether `visible` holds `p`.
fn sees_point(visible: &Vec<Point>, p: Point) -> (r: bool)
    ensures
        r == visible@.contains(p),
{
    let n = visible.len();
    let mut k: usize = 0;
    while k < n
        invariant
            n == visible@.len(),
            k <= n,
            forall|j: int| 0 <= j < k ==> visible@[j] != p,
        decreases n - k,
    {
        if visible[k] == p {
            assert(visible@[k as int] == p);
            return true;
        }
        k = k + 1;
    }
    false
}

/// A cell index below `width * height` splits into an in-bounds column and row.
proof fn lemma_cell_split(cell: int, width: int, height: int)
    requires
        1 <= width,
        1 <= height,
        0 <= cell < width * height,
    ensures
        0 <= cell % width < width,
        0 <= cell / width < height,
        (cell / width) * width + cell % width == cell,
{
    assert(0 <= cell / width < height) by (nonlinear_arith)
        requires 1 <= width, 1 <= height, 0 <= cell < width * height;
    assert((cell / width) * width + cell % width == cell) by (nonlinear_arith)
        requires 1 <= width;
}

impl MonsterAI {
    /// Decides what monster `e` does this turn.
    pub fn plan(&self, world: &World, e: Entity) -> (p: MonsterPlan)
        requires
            world.wf(),
        ensures
            p == monster_plan(*world, e),
    {
        if world.run_state != RunState::MonsterTurn {
            return MonsterPlan::Idle;
        }
        if e.0 >= world.entities.len() || !world.entities[e.0].alive || !world.entities[e.0].monster {
            return MonsterPlan::Idle;
        }
        let pos = match world.entities[e.0].position {
            Some(pos) => pos,
            None => { return MonsterPlan::Idle; },
        };
        let seen = match &world.entities[e.0].viewshed {
            Some(v) => sees_point(&v.visible_tiles, world.player_pos),
            None => { return MonsterPlan::Idle; },
        };
        if !seen {
            return MonsterPlan::Idle;
        }
        proof { lemma_record_at(world.entities@, world.map.width as int, world.map.height as int, e.0 as int); }
        let player = world.player_pos;
        let dx: i64 = pos.x as i64 - player.x as i64;
        let dy: i64 = pos.y as i64 - player.y as i64;
        if -1 <= dx && dx <= 1 && -1 <= dy && dy <= 1 {
            assert(dx * dx <= 1 && dy * dy <= 1) by (nonlinear_arith)
                requires -1 <= dx <= 1, -1 <= dy <= 1;
            MonsterPlan::Attack
        } else {
            assert(dx * dx + dy * dy > 2) by (nonlinear_arith)
                requires !(-1 <= dx <= 1 && -1 <= dy <= 1);
            MonsterPlan::Chase {
                start: world.map.xy_idx(pos.x, pos.y),
                end: world.map.xy_idx(player.x, player.y),
            }
        }
    }

    /// Carries out the plan of monster `e`: an attack on the player, or one step along
    /// `path` (unblocking the cell it leaves and blocking the one it enters).
    pub fn act(&mut self, world: &mut World, e: Entity, path: Option<NavPath>)
        requires
            old(world).wf(),
            path_ok(old(world).map, path),
        ensures
            final(world).wf(),
            monster_acted(*old(world), *final(world), e, path),
    {
        let plan = self.plan(world, e);
        match plan {
            MonsterPlan::Idle => {},
            MonsterPlan::Attack => {
                let ghost before = world.entities@;
                proof { lemma_record_at(before, world.map.width as int, world.map.height as int, e.0 as int); }
                world.entities[e.0].wants_to_melee = Some(WantsToMelee { target: world.player_entity });
                proof {
                    lemma_records_wf_update(before, world.map.width as int, world.map.height as int,
                        e.0 as int, world.entities@[e.0 as int]);
                }
            },
            MonsterPlan::Chase { start, end } => {
                match path {
                    Some(p) => {
                        if p.success && p.steps.len() > 1 {
                            let cell = p.steps[1];
                            let ghost before = world.entities@;
                            let ghost w = world.map.width as int;
                            let ghost h = world.map.height as int;
                            proof {
                                lemma_record_at(before, w, h, e.0 as int);
                                lemma_cell_split(cell as int, w, h);
                                let pos = before[e.0 as int].position.unwrap();
                                lemma_idx_in_range(w, h, pos.x as int, pos.y as int);
                                assert(path_moves(path));
                            }
                            world.map.blocked.set(start, false);
                            let width = world.map.width;
                            let c = cell as i32;
                            assert(c == cell);
                            let nx = c % width;
                            let ny = c / width;
                            world.entities[e.0].position = Some(Position { x: nx, y: ny });
                            let taken = world.entities[e.0].viewshed.take();
                            if let Some(v) = taken {
                                world.entities[e.0].viewshed = Some(Viewshed { dirty: true, ..v });
                            }
                            let idx = world.map.xy_idx(nx, ny);
                            world.map.blocked.set(idx, true);
                            proof {
                                assert(world.entities@[e.0 as int] == chased(before[e.0 as int], old(world).map, cell as int));
                                assert(world.entities@ =~= before.update(e.0 as int, world.entities@[e.0 as int]));
                                lemma_records_wf_update(before, w, h, e.0 as int, world.entities@[e.0 as int]);
                            }
                        }
                    },
                    None => {},
                }
            },
        }
    }
}

} // verus!
