# shiloh

The engine and editor logic of the Shiloh3D game engine as a Verus-verified
library, with a thin host layer around it.

## Layout

- `src/` — the verified library. Each module states its behaviour in
  `requires` / `ensures` contracts over mathematical models (`Seq`, `Set`,
  `Map`, spec functions) and proves laws that relate several operations:
  - `world_partition` — streaming cells around a focus cell;
  - `render_graph` — render passes, resources and their compiled order
    (Kahn's algorithm), and the per-frame renderer;
  - `rhi` — GPU descriptors, generational handles, the null and stub devices;
  - `network` — the loopback transport and replication buffering;
  - `input` — double-buffered key and button state, action bindings;
  - `scripting` — script components and the visual-graph interpreter;
  - `highlight`, `script_editor` — Rhai highlighting and the script IDE state
    (autocomplete, files);
  - `node_graph`, `outliner`, `selection`, `shortcuts`, `play_mode`,
    `viewport`, `world_items`, `import`, `project`, `components` — editor
    rules: graph edits, outliner rows, multi-select, keyboard shortcuts,
    play-mode hooks and snapshots, prop meshes, the item catalog and asset browser, URL
    imports and project files;
  - `slice_frame` — a frame's instance buffer and the ranges its passes
    draw, buffer growth, built-in albedo pixels, and row readback;
  - `console` — the editor console's bounded log;
  - `mesh_topology` — icosahedron faces, their subdivision, and box quads;
  - `hierarchy` — parent / child links and the order world transforms are
    recomputed in;
  - `text`, `collections`, `std_types` — shared character-sequence helpers,
    and the outside collections and standard types the library carries.
- `tests/` — tests of the library's public API.
- `app/` — the host layer: file system and network work, the Rhai engine,
  serde forms of the library's types, and the floating-point state (world
  positions, pointer motion, layout sizes, vertex positions) the library does
  not model.
