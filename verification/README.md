# rusty_roguelike

The rules of a small turn-based roguelike, verified with Verus.

- `src/world.rs` holds the world: a table of entity records (one optional field per
  component; indices are never reused, deletions by systems are deferred to
  `World::maintain`) and the resources (map, player entity and position, run state,
  game log, rltk's random number generator). The table is the library's own rather than a
  `specs::World`: specs keeps each component in a storage whose type must implement
  `specs::Component`, and no file of this crate can provide that for the library's
  component types (src/ takes no outside derives or impls of outside traits, and app/,
  a crate of its own, cannot implement an outside trait for a type of the library).
- `src/map.rs`, `src/map_indexing_system.rs`: the map and its index of blocked cells and
  of the entities standing on each cell.
- `src/damage_system.rs`, `src/inventory_system.rs`: damage and death; picking up,
  drinking and dropping items.
- Not covered: field of view (filling viewsheds, revealing tiles) and melee resolution
  (turning a `WantsToMelee` intent into `SufferDamage`). Their rules are not defined in
  this library, and neither `State::run_systems` nor `app/` performs them: monsters see
  only what a viewshed already holds, and attacks are recorded as intents but deal no
  damage.
- `src/player.rs`: keys, player moves, attacks and pickups.
- `src/monster_ai_system.rs`: monster decisions. Path-finding runs on the map between two
  monsters' turns, so the caller finds a path when `MonsterAI::plan` asks for one and hands
  it to `MonsterAI::act`.
- `src/spawner.rs`: the player, monsters, potions and filling rooms. The dice decide
  the counts, cells and kinds; `spawn_room_with_counts` takes the counts and
  `fill_room_at` the drawn cells and kind rolls, each with an exact contract. A cell
  search redraws until `accept_draw` accepts a cell; since every loop must be shown to
  end, after `u64::MAX` rejected draws in a row it takes the first free cell row by row.
  `spawn_room` asks for a room of at least three cells (the most monsters it can roll),
  `spawn_room_with_counts` for at least as many cells as each count.
- `src/state.rs`: the turn loop (`State::tick`), `src/render.rs`: the drawing order.
- `src/laws.rs`: properties that span several functions: the turn cycle, the log, dead
  entities, items placed or carried, monsters holding still outside their turn, the
  position resource following the player, healing bounds, and a drop undoing a pickup.
- `app/main.rs`: the window, drawing, keyboard, path-finding with rltk, and `main`.
