use rltk::RandomNumberGenerator;
use rusty_roguelike::codepage::to_cp437;
use rusty_roguelike::components::{CombatStats, Entity, InBackpack, Point, Position, Renderable, Viewshed, WantsToMelee};
use rusty_roguelike::map::{GameMap, Rect, TileType};
use rusty_roguelike::monster_ai_system::{MonsterAI, MonsterPlan, NavPath};
use rusty_roguelike::player::{get_item, player_input, try_move_player, Key};
use rusty_roguelike::render::draw_order;
use rusty_roguelike::spawner::{
    accept_draw, fill_room_at, goblin, health_potion, monster_for_roll, orc, player, random_monster, spawn_room, spawn_room_with_counts,
};
use rusty_roguelike::state::{ItemMenuResult, State};
use rusty_roguelike::world::{new_bare_record, EntityRecord, RunState, World};

fn walled_map(width: i32, height: i32) -> GameMap {
    let n = (width * height) as usize;
    let mut tiles = vec![TileType::Floor; n];
    for x in 0..width {
        tiles[x as usize] = TileType::Wall;
        tiles[((height - 1) * width + x) as usize] = TileType::Wall;
    }
    for y in 0..height {
        tiles[(y * width) as usize] = TileType::Wall;
        tiles[(y * width + width - 1) as usize] = TileType::Wall;
    }
    GameMap {
        tiles,
        rooms: vec![Rect { x1: 1, y1: 1, x2: width - 2, y2: height - 2 }],
        width,
        height,
        revealed_tiles: vec![false; n],
        visible_tiles: vec![true; n],
        blocked: vec![false; n],
        tile_content: (0..n).map(|_| Vec::new()).collect(),
    }
}

fn world_with_player(width: i32, height: i32, x: i32, y: i32, seed: u64) -> World {
    let mut w = World::new(walled_map(width, height), RandomNumberGenerator::seeded(seed));
    let hero = player(&mut w, x, y);
    w.player_entity = hero;
    w.player_pos = Point { x, y };
    w
}

fn index(w: &mut World) {
    rusty_roguelike::map_indexing_system::MapIdexingSystem {}.run(w);
}

#[test]
fn player_steps_onto_a_free_cell() {
    let mut w = world_with_player(10, 10, 4, 4, 1);
    index(&mut w);
    try_move_player(1, -1, &mut w);
    assert_eq!(w.entities[0].position, Some(Position { x: 5, y: 3 }));
    assert!(w.entities[0].viewshed.as_ref().unwrap().dirty);
    assert_eq!(w.player_pos, Point { x: 5, y: 3 });
}

#[test]
fn player_does_not_step_onto_a_blocked_cell() {
    let mut w = world_with_player(10, 10, 4, 4, 1);
    let mut rock = new_bare_record(true);
    rock.position = Some(Position { x: 5, y: 4 });
    rock.block_tile = true;
    w.build_entity(rock);
    index(&mut w);
    try_move_player(1, 0, &mut w);
    assert_eq!(w.entities[0].position, Some(Position { x: 4, y: 4 }));
    assert_eq!(w.player_pos, Point { x: 4, y: 4 });
}

#[test]
fn player_attacks_a_fighter_instead_of_moving() {
    let mut w = world_with_player(10, 10, 4, 4, 1);
    let o = orc(&mut w, 4, 5);
    index(&mut w);
    try_move_player(0, 1, &mut w);
    assert_eq!(w.entities[0].position, Some(Position { x: 4, y: 4 }));
    assert_eq!(w.entities[0].wants_to_melee, Some(WantsToMelee { target: o }));
}

#[test]
fn player_cannot_enter_the_border() {
    let mut w = world_with_player(10, 10, 1, 1, 1);
    index(&mut w);
    try_move_player(-1, 0, &mut w);
    assert_eq!(w.entities[0].position, Some(Position { x: 1, y: 1 }));
    try_move_player(0, 1, &mut w);
    assert_eq!(w.entities[0].position, Some(Position { x: 1, y: 2 }));
}

#[test]
fn moves_are_clamped_to_the_standard_screen() {
    let mut w = world_with_player(100, 60, 79, 49, 1);
    index(&mut w);
    try_move_player(1, 1, &mut w);
    assert_eq!(w.entities[0].position, Some(Position { x: 79, y: 49 }));
    assert!(w.entities[0].viewshed.as_ref().unwrap().dirty);
    assert_eq!(w.player_pos, Point { x: 79, y: 49 });
}

#[test]
fn keys_map_to_actions_and_run_states() {
    let mut gs = State { ecs: world_with_player(10, 10, 4, 4, 1) };
    index(&mut gs.ecs);
    assert_eq!(player_input(&mut gs, None), RunState::AwaitingInput);
    assert_eq!(player_input(&mut gs, Some(Key::Other)), RunState::AwaitingInput);
    assert_eq!(player_input(&mut gs, Some(Key::B)), RunState::ShowInventory);
    assert_eq!(player_input(&mut gs, Some(Key::G)), RunState::ShowDropItem);
    assert_eq!(gs.ecs.entities[0].position, Some(Position { x: 4, y: 4 }));
    assert_eq!(player_input(&mut gs, Some(Key::Numpad6)), RunState::PlayerTurn);
    assert_eq!(gs.ecs.entities[0].position, Some(Position { x: 5, y: 4 }));
    assert_eq!(player_input(&mut gs, Some(Key::Z)), RunState::PlayerTurn);
    assert_eq!(gs.ecs.entities[0].position, Some(Position { x: 4, y: 5 }));
    // The map index still lists the player on (4, 4), so stepping back there attacks it.
    assert_eq!(player_input(&mut gs, Some(Key::W)), RunState::PlayerTurn);
    assert_eq!(gs.ecs.entities[0].position, Some(Position { x: 4, y: 5 }));
    assert_eq!(gs.ecs.entities[0].wants_to_melee, Some(WantsToMelee { target: Entity(0) }));
}

#[test]
fn get_item_reports_an_empty_cell() {
    let mut w = world_with_player(10, 10, 4, 4, 1);
    get_item(&mut w);
    assert_eq!(w.log.entries, vec!["There is nothing here to pick up".to_string()]);
    assert!(w.entities[0].wants_to_pickup.is_none());
}

#[test]
fn get_item_picks_the_last_item_on_the_cell() {
    let mut w = world_with_player(10, 10, 4, 4, 1);
    let _first = health_potion(&mut w, 4, 4);
    let second = health_potion(&mut w, 4, 4);
    let _elsewhere = health_potion(&mut w, 3, 4);
    get_item(&mut w);
    let want = w.entities[0].wants_to_pickup.unwrap();
    assert_eq!(want.item, second);
    assert_eq!(want.collected_by, Entity(0));
    assert!(w.log.entries.is_empty());
}

#[test]
fn spawned_records_carry_their_components() {
    let mut w = world_with_player(10, 10, 4, 4, 1);
    let hero = &w.entities[0];
    assert_eq!(hero.renderable.unwrap().glyph, 64);
    assert_eq!(hero.combat_stats, Some(CombatStats { max_hp: 30, hp: 30, defense: 3, power: 10 }));
    assert_eq!(hero.name.as_deref(), Some("Player"));
    assert!(hero.player);
    let o = orc(&mut w, 2, 2);
    let g = goblin(&mut w, 3, 2);
    let p = health_potion(&mut w, 5, 5);
    assert_eq!(w.entities[o.0].renderable.unwrap().glyph, 111);
    assert_eq!(w.entities[o.0].name.as_deref(), Some("Orc"));
    assert!(w.entities[o.0].block_tile && w.entities[o.0].monster);
    assert_eq!(w.entities[g.0].renderable.unwrap().glyph, 103);
    assert_eq!(w.entities[g.0].name.as_deref(), Some("Goblin"));
    assert_eq!(w.entities[p.0].renderable.unwrap().glyph, 173);
    assert_eq!(w.entities[p.0].renderable.unwrap().render_order, 2);
    assert_eq!(w.entities[p.0].potion.unwrap().heal_amount, 8);
    assert_eq!(to_cp437('¡'), 173);
}

#[test]
fn a_roll_of_one_makes_an_orc_and_others_a_goblin() {
    let mut w = world_with_player(10, 10, 4, 4, 1);
    let a = monster_for_roll(&mut w, 2, 2, 1);
    let b = monster_for_roll(&mut w, 3, 3, 2);
    assert_eq!(w.entities[a.0].name.as_deref(), Some("Orc"));
    assert_eq!(w.entities[b.0].name.as_deref(), Some("Goblin"));
}

#[test]
fn random_monsters_are_orcs_and_goblins() {
    let mut orcs = 0;
    let mut goblins = 0;
    for seed in 0..40u64 {
        let mut w = world_with_player(10, 10, 4, 4, seed);
        let m = random_monster(&mut w, 2, 2);
        match w.entities[m.0].name.as_deref() {
            Some("Orc") => orcs += 1,
            Some("Goblin") => goblins += 1,
            other => panic!("unexpected monster {:?}", other),
        }
    }
    assert!(orcs > 0 && goblins > 0);
}

#[test]
fn rooms_get_few_monsters_and_potions_inside_them() {
    for seed in 0..30u64 {
        let mut w = world_with_player(40, 30, 1, 1, seed);
        let room = Rect { x1: 10, y1: 5, x2: 16, y2: 9 };
        spawn_room(&mut w, &room);
        let added: Vec<&EntityRecord> = w.entities[1..].iter().collect();
        let monsters: Vec<&&EntityRecord> = added.iter().filter(|r| r.monster).collect();
        let potions: Vec<&&EntityRecord> = added.iter().filter(|r| r.item).collect();
        assert!(monsters.len() <= 3);
        assert!(potions.len() <= 1);
        assert_eq!(monsters.len() + potions.len(), added.len());
        for r in added.iter() {
            let p = r.position.unwrap();
            assert!(p.x > 10 && p.x <= 16 && p.y > 5 && p.y <= 9);
        }
        for i in 0..monsters.len() {
            for j in (i + 1)..monsters.len() {
                assert_ne!(monsters[i].position, monsters[j].position);
            }
        }
        let first_potion = added.iter().position(|r| r.item).unwrap_or(added.len());
        assert!(added[first_potion..].iter().all(|r| r.item));
    }
}

#[test]
fn rooms_sometimes_hold_monsters() {
    let mut total = 0;
    for seed in 0..30u64 {
        let mut w = world_with_player(40, 30, 1, 1, seed);
        spawn_room(&mut w, &Rect { x1: 10, y1: 5, x2: 16, y2: 9 });
        total += w.entities.len() - 1;
    }
    assert!(total > 0);
}

fn monster_world() -> (World, Entity) {
    let mut w = world_with_player(20, 20, 10, 10, 3);
    let g = goblin(&mut w, 13, 10);
    w.entities[g.0].viewshed = Some(Viewshed { visible_tiles: vec![Point { x: 10, y: 10 }], range: 8, dirty: false });
    index(&mut w);
    (w, g)
}

#[test]
fn monsters_wait_outside_their_turn() {
    let (mut w, g) = monster_world();
    w.run_state = RunState::PlayerTurn;
    let mut ai = MonsterAI {};
    assert_eq!(ai.plan(&w, g), MonsterPlan::Idle);
    ai.act(&mut w, g, None);
    assert_eq!(w.entities[g.0].position, Some(Position { x: 13, y: 10 }));
}

#[test]
fn monsters_that_cannot_see_the_player_wait() {
    let (mut w, g) = monster_world();
    w.run_state = RunState::MonsterTurn;
    w.entities[g.0].viewshed = Some(Viewshed { visible_tiles: vec![Point { x: 9, y: 10 }], range: 8, dirty: false });
    assert_eq!(MonsterAI {}.plan(&w, g), MonsterPlan::Idle);
}

#[test]
fn a_distant_monster_chases_along_its_path() {
    let (mut w, g) = monster_world();
    w.run_state = RunState::MonsterTurn;
    let mut ai = MonsterAI {};
    assert_eq!(ai.plan(&w, g), MonsterPlan::Chase { start: 10 * 20 + 13, end: 10 * 20 + 10 });
    assert!(w.map.blocked[10 * 20 + 13]);
    ai.act(&mut w, g, Some(NavPath { success: true, steps: vec![10 * 20 + 13, 11 * 20 + 12, 10 * 20 + 11] }));
    assert_eq!(w.entities[g.0].position, Some(Position { x: 12, y: 11 }));
    assert!(w.entities[g.0].viewshed.as_ref().unwrap().dirty);
    assert!(!w.map.blocked[10 * 20 + 13]);
    assert!(w.map.blocked[11 * 20 + 12]);
}

#[test]
fn a_failed_path_leaves_the_monster_in_place() {
    let (mut w, g) = monster_world();
    w.run_state = RunState::MonsterTurn;
    MonsterAI {}.act(&mut w, g, Some(NavPath { success: false, steps: vec![1, 2, 3] }));
    assert_eq!(w.entities[g.0].position, Some(Position { x: 13, y: 10 }));
    MonsterAI {}.act(&mut w, g, Some(NavPath { success: true, steps: vec![10 * 20 + 13] }));
    assert_eq!(w.entities[g.0].position, Some(Position { x: 13, y: 10 }));
}

#[test]
fn an_adjacent_monster_attacks_even_diagonally() {
    let (mut w, g) = monster_world();
    w.run_state = RunState::MonsterTurn;
    w.entities[g.0].position = Some(Position { x: 11, y: 11 });
    let mut ai = MonsterAI {};
    assert_eq!(ai.plan(&w, g), MonsterPlan::Attack);
    ai.act(&mut w, g, None);
    assert_eq!(w.entities[g.0].wants_to_melee, Some(WantsToMelee { target: Entity(0) }));
    w.entities[g.0].position = Some(Position { x: 12, y: 11 });
    assert!(matches!(ai.plan(&w, g), MonsterPlan::Chase { .. }));
}

#[test]
fn entities_are_drawn_by_layer_then_id_and_only_in_view() {
    let mut w = world_with_player(10, 10, 4, 4, 1);
    let p = health_potion(&mut w, 4, 4);
    let o = orc(&mut w, 5, 5);
    let q = health_potion(&mut w, 6, 6);
    let hidden = health_potion(&mut w, 7, 7);
    w.map.visible_tiles[7 * 10 + 7] = false;
    let order: Vec<Entity> = draw_order(&w).iter().map(|d| d.entity).collect();
    assert_eq!(order, vec![p, q, o, Entity(0)]);
    assert!(!order.contains(&hidden));
    let r: Renderable = draw_order(&w)[0].renderable;
    assert_eq!(r.render_order, 2);
}

#[test]
fn the_turn_cycle_advances_through_the_states() {
    let mut gs = State { ecs: world_with_player(10, 10, 4, 4, 1) };
    assert_eq!(gs.ecs.run_state, RunState::PreRun);
    gs.tick(None, (ItemMenuResult::NoResponse, None));
    assert_eq!(gs.ecs.run_state, RunState::AwaitingInput);
    gs.tick(None, (ItemMenuResult::NoResponse, None));
    assert_eq!(gs.ecs.run_state, RunState::AwaitingInput);
    gs.tick(Some(Key::Right), (ItemMenuResult::NoResponse, None));
    assert_eq!(gs.ecs.run_state, RunState::PlayerTurn);
    assert_eq!(gs.ecs.entities[0].position, Some(Position { x: 5, y: 4 }));
    gs.tick(None, (ItemMenuResult::NoResponse, None));
    assert_eq!(gs.ecs.run_state, RunState::MonsterTurn);
    gs.tick(None, (ItemMenuResult::NoResponse, None));
    assert_eq!(gs.ecs.run_state, RunState::AwaitingInput);
}

#[test]
fn the_inventory_menu_records_a_drink_and_the_next_turn_drinks_it() {
    let mut gs = State { ecs: world_with_player(10, 10, 4, 4, 1) };
    let p = health_potion(&mut gs.ecs, 1, 1);
    gs.ecs.entities[p.0].position = None;
    gs.ecs.entities[p.0].in_backpack = Some(InBackpack { owner: Entity(0) });
    gs.ecs.entities[0].combat_stats = Some(CombatStats { max_hp: 30, hp: 20, defense: 3, power: 10 });
    gs.ecs.run_state = RunState::ShowInventory;
    gs.tick(None, (ItemMenuResult::NoResponse, None));
    assert_eq!(gs.ecs.run_state, RunState::ShowInventory);
    gs.tick(None, (ItemMenuResult::Selected, Some(p)));
    assert_eq!(gs.ecs.run_state, RunState::PlayerTurn);
    gs.tick(None, (ItemMenuResult::NoResponse, None));
    assert_eq!(gs.ecs.entities[0].combat_stats.unwrap().hp, 28);
    assert!(!gs.ecs.entities[p.0].alive);
    assert_eq!(gs.ecs.log.entries, vec!["You drink the Health Potion, healing 8 hp.".to_string()]);
    gs.ecs.run_state = RunState::ShowDropItem;
    gs.tick(None, (ItemMenuResult::Cancel, None));
    assert_eq!(gs.ecs.run_state, RunState::AwaitingInput);
}

#[test]
fn a_tick_removes_the_dead_and_only_appends_to_the_log() {
    let mut gs = State { ecs: world_with_player(10, 10, 4, 4, 1) };
    let o = orc(&mut gs.ecs, 6, 6);
    gs.ecs.entities[o.0].combat_stats = Some(CombatStats { max_hp: 16, hp: 0, defense: 1, power: 4 });
    gs.ecs.log.entries.push("Welcome".to_string());
    gs.ecs.run_state = RunState::AwaitingInput;
    gs.tick(None, (ItemMenuResult::NoResponse, None));
    assert!(!gs.ecs.entities[o.0].alive);
    assert_eq!(gs.ecs.log.entries, vec!["Welcome".to_string(), "Orc is dead".to_string()]);
    gs.tick(None, (ItemMenuResult::NoResponse, None));
    assert!(!gs.ecs.entities[o.0].alive);
    assert_eq!(gs.ecs.entities.len(), 2);
}

#[test]
fn picking_up_then_dropping_keeps_items_either_placed_or_carried() {
    let mut gs = State { ecs: world_with_player(10, 10, 4, 4, 1) };
    let p = health_potion(&mut gs.ecs, 4, 4);
    gs.ecs.run_state = RunState::AwaitingInput;
    gs.tick(Some(Key::F), (ItemMenuResult::NoResponse, None));
    gs.tick(None, (ItemMenuResult::NoResponse, None));
    assert!(gs.ecs.entities[p.0].position.is_none());
    assert_eq!(gs.ecs.entities[p.0].in_backpack, Some(InBackpack { owner: Entity(0) }));
    gs.ecs.run_state = RunState::ShowDropItem;
    gs.tick(None, (ItemMenuResult::Selected, Some(p)));
    gs.tick(None, (ItemMenuResult::NoResponse, None));
    assert_eq!(gs.ecs.entities[p.0].position, Some(Position { x: 4, y: 4 }));
    assert!(gs.ecs.entities[p.0].in_backpack.is_none());
    for r in gs.ecs.entities.iter() {
        assert!(!(r.position.is_some() && r.in_backpack.is_some()));
    }
}

#[test]
fn room_centres_round_towards_zero() {
    assert_eq!(Rect { x1: 1, y1: 2, x2: 4, y2: 7 }.center(), (2, 4));
    assert_eq!(Rect { x1: -5, y1: -2, x2: 2, y2: 1 }.center(), (-1, 0));
}

#[test]
fn fill_room_at_places_each_kind_on_its_cell() {
    let mut w = world_with_player(40, 30, 1, 1, 1);
    fill_room_at(&mut w, &vec![11 * 80 + 11, 13 * 80 + 12], &vec![1, 2], &vec![12 * 80 + 13]);
    assert_eq!(w.entities.len(), 4);
    assert_eq!(w.entities[1].name.as_deref(), Some("Orc"));
    assert_eq!(w.entities[1].renderable.unwrap().glyph, to_cp437('o'));
    assert_eq!(w.entities[1].position, Some(Position { x: 11, y: 11 }));
    assert_eq!(w.entities[2].name.as_deref(), Some("Goblin"));
    assert_eq!(w.entities[2].renderable.unwrap().glyph, to_cp437('g'));
    assert_eq!(w.entities[2].position, Some(Position { x: 12, y: 13 }));
    assert_eq!(w.entities[3].name.as_deref(), Some("Health Potion"));
    assert_eq!(w.entities[3].position, Some(Position { x: 13, y: 12 }));
    assert!(w.entities[3].item);
}

#[test]
fn fill_room_at_with_nothing_drawn_adds_nothing() {
    let mut w = world_with_player(40, 30, 1, 1, 1);
    fill_room_at(&mut w, &vec![], &vec![], &vec![]);
    assert_eq!(w.entities.len(), 1);
}

#[test]
fn rooms_get_exactly_the_counts_asked_for() {
    for seed in 0..20u64 {
        let mut w = world_with_player(40, 30, 1, 1, seed);
        spawn_room_with_counts(&mut w, &Rect { x1: 10, y1: 5, x2: 16, y2: 9 }, 3, 1);
        assert_eq!(w.entities.len(), 5);
        for r in w.entities[1..4].iter() {
            assert!(r.monster);
            let p = r.position.unwrap();
            assert!(p.x > 10 && p.x <= 16 && p.y > 5 && p.y <= 9);
        }
        assert_ne!(w.entities[1].position, w.entities[2].position);
        assert_ne!(w.entities[1].position, w.entities[3].position);
        assert_ne!(w.entities[2].position, w.entities[3].position);
        assert!(w.entities[4].item);
    }
}

#[test]
fn counts_of_zero_or_less_spawn_nothing() {
    let mut w = world_with_player(40, 30, 1, 1, 3);
    spawn_room_with_counts(&mut w, &Rect { x1: 10, y1: 5, x2: 16, y2: 9 }, -2, 0);
    assert_eq!(w.entities.len(), 1);
}

#[test]
fn draws_land_on_free_cells_and_taken_ones_are_drawn_again() {
    let room = Rect { x1: 10, y1: 10, x2: 15, y2: 14 };
    // Rolls in order: counts 5 and 4 (two monsters, one potion), then offsets
    // (1, 1), (1, 1) again, (2, 3); (3, 2); then kinds 1 and 2.
    let mut monsters: Vec<usize> = Vec::new();
    let first = accept_draw(&room, &monsters, 1, 1).unwrap();
    assert_eq!(first, 11 * 80 + 11);
    monsters.push(first);
    assert_eq!(accept_draw(&room, &monsters, 1, 1), None);
    let second = accept_draw(&room, &monsters, 2, 3).unwrap();
    assert_eq!(second, 13 * 80 + 12);
    monsters.push(second);
    let potion = accept_draw(&room, &Vec::new(), 3, 2).unwrap();
    assert_eq!(potion, 12 * 80 + 13);
    let mut w = world_with_player(40, 30, 1, 1, 1);
    fill_room_at(&mut w, &monsters, &vec![1, 2], &vec![potion]);
    assert_eq!(w.entities.len(), 4);
    assert_eq!(w.entities[1].name.as_deref(), Some("Orc"));
    assert_eq!(w.entities[1].position, Some(Position { x: 11, y: 11 }));
    assert_eq!(w.entities[2].name.as_deref(), Some("Goblin"));
    assert_eq!(w.entities[2].position, Some(Position { x: 12, y: 13 }));
    assert_eq!(w.entities[3].name.as_deref(), Some("Health Potion"));
    assert_eq!(w.entities[3].position, Some(Position { x: 13, y: 12 }));
}

#[test]
fn a_room_as_large_as_the_count_is_filled_completely() {
    for seed in 0..10u64 {
        let mut w = world_with_player(40, 30, 1, 1, seed);
        spawn_room_with_counts(&mut w, &Rect { x1: 10, y1: 5, x2: 13, y2: 6 }, 3, 1);
        assert_eq!(w.entities.len(), 5);
        let mut xs: Vec<i32> = w.entities[1..4].iter().map(|r| r.position.unwrap().x).collect();
        xs.sort();
        assert_eq!(xs, vec![11, 12, 13]);
        assert!(w.entities[1..4].iter().all(|r| r.position.unwrap().y == 6 && r.monster));
    }
}

#[test]
fn monsters_hold_still_in_the_players_ticks() {
    let mut gs = State { ecs: world_with_player(10, 10, 4, 4, 1) };
    let o = orc(&mut gs.ecs, 7, 7);
    index(&mut gs.ecs);
    gs.ecs.run_state = RunState::AwaitingInput;
    gs.tick(Some(Key::Right), (ItemMenuResult::NoResponse, None));
    assert_eq!(gs.ecs.run_state, RunState::PlayerTurn);
    assert_eq!(gs.ecs.entities[o.0].position, Some(Position { x: 7, y: 7 }));
    gs.tick(None, (ItemMenuResult::NoResponse, None));
    assert_eq!(gs.ecs.run_state, RunState::MonsterTurn);
    assert_eq!(gs.ecs.entities[o.0].position, Some(Position { x: 7, y: 7 }));
    assert_eq!(gs.ecs.entities[o.0].wants_to_melee, None);
    gs.tick(None, (ItemMenuResult::NoResponse, None));
    assert_eq!(gs.ecs.run_state, RunState::AwaitingInput);
    assert_ne!(gs.ecs.run_state, RunState::PreRun);
}

#[test]
fn the_position_resource_follows_the_player() {
    let mut w = world_with_player(10, 10, 4, 4, 1);
    index(&mut w);
    try_move_player(-1, 1, &mut w);
    let p = w.entities[0].position.unwrap();
    assert_eq!(w.player_pos, Point { x: p.x, y: p.y });
    assert_eq!(p, Position { x: 3, y: 5 });
}


#[test]
fn glyphs_use_code_page_437() {
    assert_eq!(to_cp437('@'), 64);
    assert_eq!(to_cp437('g'), 103);
    assert_eq!(to_cp437('o'), 111);
    assert_eq!(to_cp437('¡'), 173);
    let mut w = world_with_player(10, 10, 4, 4, 1);
    let p = health_potion(&mut w, 2, 2);
    assert_eq!(w.entities[p.0].renderable.unwrap().glyph, 173);
    assert_eq!(w.entities[0].renderable.unwrap().glyph, 64);
}
