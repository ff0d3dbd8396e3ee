# Sample Terminal

A small native macOS terminal: a login shell in a pseudoterminal, drawn with Metal in an
AppKit window. The terminal core is a library verified with Verus; the window, the PTY,
the Metal renderer and everything that computes in floating point are ordinary Rust
around it.

## Layout

- `src/` — the verified library `sample_terminal`:
  - `terminal_buffer/` — the terminal state machine. `model.rs` gives the mathematical
    model and the meaning of every operation; `parser.rs`, `ops.rs`, `color.rs`,
    `damage.rs` and `types.rs` implement them against it; `laws.rs` and `damage_law.rs`
    prove properties across operations (feeding output in pieces, screen switches,
    private modes, skipped OSC sequences, damage covering every changed row).
  - `cells.rs` — render snapshots, cursor placement, selections, and the plan of which
    cached rows the renderer rebuilds.
  - `input.rs` — key, paste and selection input turned into PTY bytes and selection state.
  - `app_state.rs` — cursor blink, selection state, activity counting, viewport scrolling.
  - `shell.rs` — the login shell to run, and the NUL-byte check on its path.
  - `atlas.rs` — shelf packing of glyph bitmaps into the atlas (and a checked entry point
    that refuses what cannot be packed), with its bounds and
    non-overlap proved.
- `tests/` — tests of the library.
- `app/` — the program: AppKit window and events, PTY session, layout and geometry in
  floating point, Core Text rasterization and the Metal renderer.
