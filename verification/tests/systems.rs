use rltk::RandomNumberGenerator;
use rusty_roguelike::components::{
    CombatStats, Color, Entity, InBackpack, Point, Position, Potion, Renderable, SufferDamage, Viewshed,
    WantsToDrinkPotion, WantsToDropItem, WantsToMelee, WantsToPickupItem,
};
use rusty_roguelike::damage_system::DamageSystem;
use rusty_roguelike::inventory_system::{backpack_of, ItemCollectionSystem, ItemDropSystem, ItemUseSystem};
use rusty_roguelike::map::{GameMap, Rect, TileType};
use rusty_roguelike::map_indexing_system::MapIdexingSystem;
use rusty_roguelike::world::{new_bare_record, EntityRecord, RunState, World};

/// A map with walls on the border and floor inside.
fn walled_map(width: i32, height: i32) -> GameMap {
    let n = (width * height) as usize;
    let mut tiles = vec![TileType::Floor; n];
    for x in 0..width {
        tiles[x as usize] = TileType::Wall;
        tiles[((height - 1) * width + x) as usize] = TileType::Wall;
    }
    for y in 0..height {
        tiles[(y * width) as usize] = TileType::Wall;
        tiles[(y * width + width - 1) as usize] = TileType::Wall;
    }
    GameMap {
        tiles,
        rooms: vec![Rect { x1: 1, y1: 1, x2: width - 2, y2: height - 2 }],
        width,
        height,
        revealed_tiles: vec![false; n],
        visible_tiles: vec![true; n],
        blocked: vec![false; n],
        tile_content: (0..n).map(|_| Vec::new()).collect(),
    }
}

fn world(width: i32, height: i32) -> World {
    World::new(walled_map(width, height), RandomNumberGenerator::seeded(7))
}

fn fighter(x: i32, y: i32, hp: i32, name: &str) -> EntityRecord {
    let mut r = new_bare_record(true);
    r.position = Some(Position { x, y });
    r.combat_stats = Some(CombatStats { max_hp: 16, hp, defense: 1, power: 4 });
    r.name = Some(name.to_string());
    r
}

fn potion(x: i32, y: i32) -> EntityRecord {
    let mut r = new_bare_record(true);
    r.position = Some(Position { x, y });
    r.item = true;
    r.potion = Some(Potion { heal_amount: 8 });
    r.name = Some("Health Potion".to_string());
    r
}

fn add(w: &mut World, r: EntityRecord) -> Entity {
    w.build_entity(r)
}

#[test]
fn map_index_blocks_walls_and_blockers_and_lists_entities() {
    let mut w = world(10, 10);
    let mut orc = fighter(3, 3, 16, "Orc");
    orc.block_tile = true;
    let a = add(&mut w, orc);
    let b = add(&mut w, potion(3, 3));
    let c = add(&mut w, potion(5, 5));
    MapIdexingSystem {}.run(&mut w);
    assert!(w.map.blocked[0]);
    assert!(w.map.blocked[3 * 10 + 3]);
    assert!(!w.map.blocked[5 * 10 + 5]);
    assert!(!w.map.blocked[4 * 10 + 4]);
    assert_eq!(w.map.tile_content[3 * 10 + 3], vec![a, b]);
    assert_eq!(w.map.tile_content[5 * 10 + 5], vec![c]);
    assert!(w.map.tile_content[4 * 10 + 4].is_empty());
}

#[test]
fn damage_lowers_hit_points_by_the_total_and_clears_it() {
    let mut w = world(10, 10);
    let mut orc = fighter(3, 3, 16, "Orc");
    orc.suffer_damage = Some(SufferDamage { amount: vec![3, 4, 2] });
    let a = add(&mut w, orc);
    let mut stray = new_bare_record(true);
    stray.suffer_damage = Some(SufferDamage { amount: vec![5] });
    let b = add(&mut w, stray);
    DamageSystem {}.run(&mut w);
    assert_eq!(w.entities[a.0].combat_stats.unwrap().hp, 7);
    assert!(w.entities[a.0].suffer_damage.is_none());
    assert!(w.entities[b.0].suffer_damage.is_none());
    assert!(w.entities[b.0].combat_stats.is_none());
}

#[test]
fn negative_damage_heals() {
    let mut w = world(10, 10);
    let mut orc = fighter(3, 3, 5, "Orc");
    orc.suffer_damage = Some(SufferDamage { amount: vec![-2] });
    let a = add(&mut w, orc);
    DamageSystem {}.run(&mut w);
    assert_eq!(w.entities[a.0].combat_stats.unwrap().hp, 7);
}

#[test]
fn the_dead_are_removed_and_named_ones_logged_but_not_the_player() {
    let mut w = world(10, 10);
    let orc = add(&mut w, fighter(3, 3, 0, "Orc"));
    let mut hero = fighter(4, 4, -3, "Player");
    hero.player = true;
    let hero = add(&mut w, hero);
    let mut ghost = fighter(5, 5, -1, "x");
    ghost.name = None;
    let nameless = add(&mut w, ghost);
    let healthy = add(&mut w, fighter(6, 6, 1, "Goblin"));
    DamageSystem::delete_the_dead(&mut w);
    assert!(!w.entities[orc.0].alive);
    assert!(w.entities[orc.0].position.is_none());
    assert!(w.entities[hero.0].alive);
    assert!(!w.entities[nameless.0].alive);
    assert!(w.entities[healthy.0].alive);
    assert_eq!(w.log.entries, vec!["Orc is dead".to_string()]);
}

#[test]
fn pickup_moves_item_into_backpack_and_logs_for_player() {
    let mut w = world(10, 10);
    let mut hero = fighter(4, 4, 30, "Player");
    hero.player = true;
    let hero = add(&mut w, hero);
    w.player_entity = hero;
    let item = add(&mut w, potion(4, 4));
    w.entities[hero.0].wants_to_pickup = Some(WantsToPickupItem { collected_by: hero, item });
    ItemCollectionSystem {}.run(&mut w);
    assert!(w.entities[item.0].position.is_none());
    assert_eq!(w.entities[item.0].in_backpack, Some(InBackpack { owner: hero }));
    assert!(w.entities[hero.0].wants_to_pickup.is_none());
    assert_eq!(w.log.entries, vec!["You pickup the Health Potion".to_string()]);
    assert_eq!(backpack_of(&w, hero), vec![item]);
}

#[test]
fn a_later_pickup_of_the_same_item_wins_and_others_are_not_logged() {
    let mut w = world(10, 10);
    let hero = add(&mut w, fighter(4, 4, 30, "Player"));
    w.player_entity = hero;
    let orc = add(&mut w, fighter(4, 5, 16, "Orc"));
    let item = add(&mut w, potion(4, 4));
    w.entities[hero.0].wants_to_pickup = Some(WantsToPickupItem { collected_by: hero, item });
    w.entities[orc.0].wants_to_pickup = Some(WantsToPickupItem { collected_by: orc, item });
    ItemCollectionSystem {}.run(&mut w);
    assert_eq!(w.entities[item.0].in_backpack, Some(InBackpack { owner: orc }));
    assert_eq!(w.log.entries.len(), 1);
}

#[test]
fn drinking_heals_up_to_the_maximum_and_dooms_the_potion() {
    let mut w = world(10, 10);
    let hero = add(&mut w, fighter(4, 4, 12, "Player"));
    w.player_entity = hero;
    let p = add(&mut w, potion(0, 0));
    w.entities[p.0].position = None;
    w.entities[p.0].in_backpack = Some(InBackpack { owner: hero });
    w.entities[hero.0].wants_to_drink = Some(WantsToDrinkPotion { potion: p });
    ItemUseSystem {}.run(&mut w);
    assert_eq!(w.entities[hero.0].combat_stats.unwrap().hp, 16);
    assert!(w.entities[hero.0].wants_to_drink.is_none());
    assert!(w.entities[p.0].doomed);
    assert!(w.entities[p.0].alive);
    assert_eq!(w.log.entries, vec!["You drink the Health Potion, healing 8 hp.".to_string()]);
    w.maintain();
    assert!(!w.entities[p.0].alive);
    assert!(w.entities[p.0].potion.is_none());
}

#[test]
fn drink_log_renders_negative_amounts() {
    let mut w = world(10, 10);
    let hero = add(&mut w, fighter(4, 4, 10, "Player"));
    w.player_entity = hero;
    let mut bad = potion(1, 1);
    bad.potion = Some(Potion { heal_amount: -305 });
    bad.name = Some("Poison".to_string());
    let p = add(&mut w, bad);
    w.entities[hero.0].wants_to_drink = Some(WantsToDrinkPotion { potion: p });
    ItemUseSystem {}.run(&mut w);
    assert_eq!(w.entities[hero.0].combat_stats.unwrap().hp, -295);
    assert_eq!(w.log.entries, vec!["You drink the Poison, healing -305 hp.".to_string()]);
}

#[test]
fn drinking_a_deleted_potion_does_nothing() {
    let mut w = world(10, 10);
    let hero = add(&mut w, fighter(4, 4, 10, "Player"));
    w.player_entity = hero;
    let p = add(&mut w, potion(1, 1));
    w.delete_entity(p);
    w.entities[hero.0].wants_to_drink = Some(WantsToDrinkPotion { potion: p });
    ItemUseSystem {}.run(&mut w);
    assert_eq!(w.entities[hero.0].combat_stats.unwrap().hp, 10);
    assert!(w.entities[hero.0].wants_to_drink.is_none());
    assert!(w.log.entries.is_empty());
}

#[test]
fn dropping_puts_the_item_where_the_player_stands() {
    let mut w = world(10, 10);
    let hero = add(&mut w, fighter(6, 2, 10, "Player"));
    w.player_entity = hero;
    let p = add(&mut w, potion(1, 1));
    w.entities[p.0].position = None;
    w.entities[p.0].in_backpack = Some(InBackpack { owner: hero });
    w.entities[hero.0].wants_to_drop = Some(WantsToDropItem { item: p });
    let orc = add(&mut w, fighter(3, 3, 10, "Orc"));
    let q = add(&mut w, potion(2, 2));
    w.entities[q.0].position = None;
    w.entities[q.0].in_backpack = Some(InBackpack { owner: orc });
    w.entities[orc.0].wants_to_drop = Some(WantsToDropItem { item: q });
    ItemDropSystem {}.run(&mut w);
    assert_eq!(w.entities[p.0].position, Some(Position { x: 6, y: 2 }));
    assert!(w.entities[p.0].in_backpack.is_none());
    assert_eq!(w.log.entries, vec!["You drop the Health Potion.".to_string()]);
    assert!(w.entities[q.0].position.is_none());
    assert!(w.entities[orc.0].wants_to_drop.is_none());
}

#[test]
fn a_drawn_attack_intent_is_kept_on_records() {
    let mut w = world(10, 10);
    let a = add(&mut w, fighter(3, 3, 10, "Orc"));
    w.entities[a.0].wants_to_melee = Some(WantsToMelee { target: Entity(0) });
    w.maintain();
    assert_eq!(w.entities[a.0].wants_to_melee, Some(WantsToMelee { target: Entity(0) }));
    let _ = Viewshed { visible_tiles: vec![Point { x: 0, y: 0 }], range: 1, dirty: false };
    let _ = Renderable { glyph: 1, fg: Color { r: 0, g: 0, b: 0 }, bg: Color { r: 0, g: 0, b: 0 }, render_order: 0 };
    assert_eq!(w.run_state, RunState::PreRun);
}
