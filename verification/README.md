# rust_2d_game_engine

The core of a 2D game engine and its editor, written in Verus. Verus checks
the code in `src/` against the contracts it states. The calls into other
crates and into std that Verus cannot see (ids, hashing, Unicode case, Lua
compilation, `indexmap`) sit behind small trusted wrappers: their contracts
restate those crates' documented behaviour and are believed, not proved.

- `src/ecs/` — scenes, entities and typed attributes in insertion-ordered
  tables (`indexmap`), the scene manager, and laws about them.
- `src/history.rs`, `src/gui_state.rs`, `src/popup.rs`, `src/inspector.rs`,
  `src/hierarchy.rs`, `src/file_system.rs` — the editor's state: undo/redo,
  selections, the exit flow, the scene panel's dialogs, the inspector's
  decisions and attribute editing, the scene tree and file tree models.
- `src/runtime.rs`, `src/input.rs`, `src/physics_setup.rs`,
  `src/script_api.rs`, `src/script_session.rs`, `src/script_editor.rs` —
  play mode: the run state machine, input state, what the physics reads and
  writes back, the functions scripts call, per-session script bookkeeping and
  script syntax checking (`mlua`).
- `src/paths.rs`, `src/project.rs`, `src/scene_io.rs`, `src/ids.rs`,
  `src/logger.rs`, `src/text.rs`, `src/order.rs`, `src/table.rs` — project
  layout and path rules, ids (`uuid`, `sha2`), the console log, and text,
  ordering and table models.
- `app/` — a command-line front end: file and folder I/O, JSON (de)serialising
  (`serde_json`), the Lua VM (`mlua`), the physics simulation (`rapier2d`),
  image and audio probing (`image`, `lofty`).

`tests/` exercises the library on concrete values.
