# wakeful

The game logic of a small exploration game, verified with Verus.

- `src/` is the library: every function there carries a contract that
  Verus proves, except two small trusted functions whose contracts are
  believed: `keys::lowercase` (`str::to_lowercase`) and
  `debug_shot::rgb_frame` (the `image` crate's RGBA-to-RGB conversion). `input`, `keys` and `bindings` are the action vocabulary,
  how configuration names physical inputs, and the per-tick edge
  bookkeeping; `party` is the roster and the field body that follows its
  leader; `ui` and `ui_requests` are the script-driven menus; `scene`,
  `scene_flow` and `teleport` cover walkable cell grids, the scene
  lifecycle and teleporter arming; `animation`, `bubble`, `editor`,
  `screen`, `scripts` and `debug_shot` hold the remaining decisions.
  Public `lemma_*` proof functions state the laws the library keeps.
- `tests/` runs the library on concrete cases.
- `app/` is a headless runner around the library: it reads the assets
  folder (input bindings, scene files, scripts), hosts the Rhai scripts,
  serves the debug request folder and ticks the logic at a fixed rate.
