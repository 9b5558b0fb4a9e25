# joduga

Middleware of a node-graph audio synthesizer: it checks and schedules the
user's patch before a real-time DSP engine runs it, carries parameter and
MIDI commands to the engine thread, and decodes MIDI input.

## Layout

- `src/` — the verified library.
  - `shadow_graph.rs`: the patch graph (nodes, wires, limits), validation
    (the output node exists, every edge joins existing nodes through
    existing ports, no cycle, found by depth-first search), Kahn's execution order, compilation into engine
    descriptors. `graph_spec.rs`, `topo_spec.rs` and `sorting.rs` hold the
    mathematical model of walks, cycles, in-degrees and Kahn's algorithm,
    and the laws proved about them.
  - `plan.rs`: building, checking and compiling a patch sent by a front end
    or by the graph editor, the initial parameter writes, and the editor's
    wiring rules (one wire per input port, removing a node with its wires).
  - `sort_laws.rs`: the execution order depends only on the node ids and
    on which node feeds which, and it starts with the entry nodes in
    ascending id order.
  - `catalog.rs`: the editor's 66 node templates (names, categories,
    icons, colours, ports, engine kinds, parameter ranges as `f32` bits).
  - `editor.rs`: the editor's opening patch, placing a node under a fresh
    id, finding a node by id.
  - `commands.rs`: node kind names, the output node, sub-type selectors,
    which node ids take parameter changes.
  - `lockfree_queue.rs`: the bounded command ring, its index arithmetic and
    its full/read decisions, which the shared rings of `app/` use.
  - `midi_input.rs`: MIDI message decoding and input port choice.
  - `frames.rs`: spreading one rendered channel over interleaved device
    channels.
  - `param_hash.rs`, `ffi.rs`, `text.rs`: parameter keys, engine types,
    decimal rendering for messages.
- `tests/` — tests run against the compiled library.
- `app/` — the program around it: the engine's C ABI and shared rings,
  audio device output, MIDI device input, the front end's commands and a
  command-line harness.

## Not included

- The egui graph editor's drawing and input handling (canvas, panels,
  waveform view) and the desktop shell's entry point that registers the
  engine commands with its IPC layer. Both are user-interface code on
  `eframe`/`egui_plot` and `tauri`, which this crate does not depend on.
  The editor's catalog, opening patch, node placement, wiring, removal and
  start rules are in `src/`; the shell's commands are plain functions in
  `app/front_end.rs`.
