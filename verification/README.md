# euv

The logic of a small web UI framework and its game engine, written in Verus
and proved against its contracts.

## Layout

- `src/fmt/` — the source formatter for the `html!`, `class!`, `vars!` and
  `watch!` macros: scanning (`scan`), token rules (`rules`), the rewriting
  pass over a macro body (`raw`), indentation (`indent`), whole files
  (`source`), and the laws of what formatting keeps (`laws`).
- `src/vdom.rs` — virtual DOM nodes, their models, visual equality and
  accessors; `src/diff.rs` — positional and keyed diffing of child lists.
- `src/input.rs` — keyboard, mouse and touch state, as a state machine driven
  by input events.
- `src/spatial.rs` — 2D and 3D spatial hash grids over integer cells, kept in
  a hash map under packed cell addresses.
- `src/particle.rs` — the particle random generator and spawn budget.
- `src/signal_addrs.rs` — the registry of the signals that drive each
  rendered element.
- `src/cache.rs` — a fixed-capacity least-recently-used cache.
- `src/timer.rs` — stopwatch and countdown timers as state machines, with a
  verified `i32` parser for the countdown's length input.
- `src/webgl.rs` — the status banner and button labels of the rendering demos.
- `src/router.rs` — which page each route of the demo application shows.
- `src/text.rs` — characters and strings, with the few calls into `char`.
- `src/kinds.rs`, `src/dom.rs` — light, material and occluder kinds; the DOM
  element operations the renderer needs.
- `app/` — ordinary Rust around the library: formatting files on disk, and
  the floating-point geometry, lighting, ray tracing, particle emitters and
  world-space grids.
- `tests/` — the test suites.
