# station_rogue

Game rules of a station roguelike that teaches Chinese characters, written
in Verus and proved against their contracts.

- `dungeon`: tiles, BSP partitioning, level generation with rooms,
  corridors, special rooms, hazards and puzzle niches.
- `enemy`: vocabulary enemies, bosses and elites, radical-derived abilities,
  the AI step rules and pinyin syllable splitting.
- `combat`: the tactical arena and battle state; `turn` (speed, movement,
  turn queue), `tick` (environment rules between turns), `events` (arena
  events) and `transition` (arena layout, entering and leaving a battle).
- `crucible`: per-item skill trees, their effects and tag encoding, and the
  totals that combat reads from them.
- `save`: reading a crucible tree back from its saved form, and the proof
  that what `CrucibleState::to_json` writes, `CrucibleState::from_json`
  reads back.
- `status`, `text`, `rng`, `srs`, `world`, `rarity`, `player`, `util`: the
  small pieces the rules above share.

`app/` holds what is computed in floating point: the mastery scaling of
enemy stats, the screen layout of crucible trees, and the conversion of
saved position texts to numbers.

## What is not here

The battle's per-frame phase machine (`tick_battle`, `advance_and_set_phase`,
`finish_environment_tick`) and the projectile flight step (`tick_projectiles`)
are not part of this crate: they drive enemy AI, input handling, terrain
ticks and status combos whose rules live in modules this project does not
have, and the projectile step advances a floating-point progress. For the
same reason `exit_combat` does not pass fight XP on to skill trees or
crucibles. Everything these functions call that belongs to this project
(environment rules, arena events, turn order, companions, impacts) is here.

Levels and arenas are limited to sides of at most 46340 tiles, so that
every tile index fits an `i32`.
