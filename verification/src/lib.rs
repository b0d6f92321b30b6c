//! Tile: the verified core of a tiling window manager.
//!
//! The library holds the binary split tree that places windows into panes,
//! the keybinding tables, the hotkey and accessibility-event decoding, and
//! the decisions that the window manager takes for each action.  Geometry in
//! screen points (floating point) and every call into the operating system
//! stay outside this crate; the split ratio, the window frame and the gap
//! configuration are carried here as type parameters that the library never
//! reads.

pub mod ids;
pub mod types;
pub mod tree;
pub mod tree_lemmas;
pub mod tiling;
pub mod text;
pub mod keycodes;
pub mod config;
pub mod hotkeys;
pub mod observer;
pub mod layout;
pub mod actions;
pub mod laws;
