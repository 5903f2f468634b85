# avo_snek

A snake game on a 20 by 20 board. The library (`src/`) holds the rules and
their proofs; `app/` opens the window, keeps the clock and draws.

- `board`: cells, directions, stepping and wrapping across the edges, and
  what a snake's body is.
- `game`: the game state (`Game`, viewed as `GameView`), its invariant
  `GameView::wf`, and the operations: `new`, `update_game` (one tick),
  `key_down_event`, food placement (`spawn_food`, `try_spawn_food`,
  `food_candidate`, `free_food_cell`), `from_parts` to rebuild a saved state, and getters.
- `render`: colours and the level banner for a level.
- `laws`: properties across operations, proved from the contracts.
- `random` (private): the trusted calls into `rand`.

The tick interval is floating point and lives in `app/`.
