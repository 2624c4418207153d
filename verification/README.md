# lastconvoy

Last Convoy is a small side-scrolling defense shooter: enemies cross a lane
towards a boundary, the player shoots them down, breaks sealed upgrade orbs
open and collects them, and a run ends when a breach reaches an unshielded
boundary.

This crate is the game's rule book, written in Verus and proved: the
functions in `src/` carry `requires`/`ensures` contracts, and the
properties the game relies on across calls are stated as public proof
functions next to the code they are about.

## Layout

- `src/` — the verified library
  - `boundary`, `breach` — boundary slots, the breach group and its lock
  - `shield` — shield segments, the explosive segment, what a hit does
  - `enemy`, `projectile` — hulls, damage, stagger, pierce bookkeeping
  - `orb` — the orb pool, weighted rolls, spawn planning, pickups
  - `spawn` — kind injection and spawn-slot cursor
  - `biome`, `screen` — the biome loop and the screen/pause state machine
  - `save`, `upgrade_catalog` — save counters, history, permanent upgrades and the shop
  - `text`, `text_metrics`, `hud`, `animation`, `render`, `input`, `config` —
    monogram font metrics and atlas layout, text measuring, HUD content,
    sprite frames, scaling, input axis and tuning constants
- `tests/` — tests that run the library on concrete values
- `app/` — the program around the library: window, drawing, input, file and
  storage I/O, and the fractional physics (positions, speeds, timers)

Randomness comes from `macroquad::rand` and the monogram metrics are parsed
with `serde_json`; both are reached through small trusted wrappers. The
system clock is read by the program (there is none in the browser build) and
handed to the library as a number.
