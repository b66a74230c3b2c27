# kingdom_server

The rules of a monster-kingdom strategy game server, as a library verified with Verus:
the map and its terrain, territories and their garrisons, players and their monster cards,
facilities, items and drops, expeditions and their timing, the AI factions' decisions
(targets, formations, explorations, production), alliances, forward bases, the flea market,
the game log and its events, and accounts (password checks).

- `src/` is the library. Every function carries a contract; laws that relate several
  functions are public proof functions (`lemma_*`).
- `tests/` runs the library on concrete values.
- `app/` is the thin program around it: settings from the environment, tokens, and the
  few computations on real numbers.

Randomness, the clock, password hashing and JSON string escaping come from outside crates
(`rand`, `argon2`, `serde_json`) behind small trusted wrappers in `src/rng.rs`,
`src/auth.rs` and `src/events.rs`, each documented with what it assumes.
