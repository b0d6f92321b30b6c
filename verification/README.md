# Tile

Tile is a macOS tiling window manager: Rectangle-style keyboard shortcuts
with size cycling, a binary space partitioning (BSP) tree of panes with
tab-style stacking, and drag-to-snap zones.

This repository holds its core as a library verified with Verus, and the
program that connects that library to macOS.

## Layout

- `src/` — the verified library (crate `tile`):
  - `ids.rs` — node and window identifiers and the source that hands them out;
  - `types.rs` — actions, orientations, managed windows;
  - `tree.rs` — the split tree, its mathematical model (`TreeView`) and its
    operations (split, stack, remove, clean up, zoom, rotate, ratios);
  - `tree_lemmas.rs` — facts about the model used by the proofs;
  - `tiling.rs` — the tree manager: adding and removing windows, focus,
    tabs, swapping panes, drops onto panes;
  - `config.rs`, `keycodes.rs`, `text.rs` — default bindings, action names,
    the text shown for bindings and actions, the settings rows;
  - `hotkeys.rs` — default hotkeys, their registration identifiers and the
    dispatch of a pressed hotkey;
  - `observer.rs` — decoding of accessibility notifications;
  - `layout.rs` — snap zone decisions for drag-to-tile;
  - `actions.rs` — action kinds, size cycling, remembered frames;
  - `laws.rs` — properties relating several operations.
- `tests/` — tests of the library.
- `app/` — the macOS program: accessibility and Carbon calls, AppKit menu,
  overlay and drag monitoring, the configuration file, and the geometry in
  screen points (floating point), which the library leaves to it.

Split ratios, window frames and gap settings are type parameters of the
library's tree; the program instantiates them with `f32`, `Rect` and
`GapConfig`.
