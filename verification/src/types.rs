//! Plain data types shared by the tree, the actions and the configuration.

use vstd::prelude::*;
use crate::ids::{IdSource, WindowId};

verus! {

/// An opaque reference to an accessibility window element.
/// Stores the pid and window index for re-acquisition.
#[derive(Debug, Clone, Copy, PartialEq, Eq, Structural)]
pub struct AXWindowRef {
    pub pid: i32,
    /// Index of the window within the app's window list when first captured.
    pub window_index: usize,
    /// The raw element pointer value (reconstructed at runtime).
    pub raw: usize,
}

impl AXWindowRef {
    pub fn new(pid: i32, window_index: usize, raw: usize) -> (r: Self)
        ensures
            r == (AXWindowRef { pid, window_index, raw }),
    {
        AXWindowRef { pid, window_index, raw }
    }
}

/// Split orientation.
#[derive(Debug, Clone, Copy, PartialEq, Eq, Structural)]
pub enum Orientation {
    /// Side by side (left | right).
    Horizontal,
    /// Stacked (top / bottom).
    Vertical,
}

impl Orientation {
    pub open spec fn spec_toggle(self) -> Orientation {
        match self {
            Orientation::Horizontal => Orientation::Vertical,
            Orientation::Vertical => Orientation::Horizontal,
        }
    }

    /// The other orientation.
    pub fn toggle(&self) -> (r: Self)
        ensures
            r == self.spec_toggle(),
            r != *self,
            r.spec_toggle() == *self,
    {
        match self {
            Orientation::Horizontal => Orientation::Vertical,
            Orientation::Vertical => Orientation::Horizontal,
        }
    }
}

/// Cardinal direction for navigation and swapping.
#[derive(Debug, Clone, Copy, PartialEq, Eq, Structural)]
pub enum Direction {
    Left,
    Right,
    Up,
    Down,
}

/// Which side to snap a window beside another.
#[derive(Debug, Clone, Copy, PartialEq, Eq, Structural)]
pub enum SnapSide {
    Left,
    Right,
}

/// A managed window stored in a pane.  `F` is the window's frame in screen
/// points, which the library carries without reading.
#[derive(Debug, Clone)]
pub struct ManagedWindow<F> {
    pub id: WindowId,
    pub ax_ref: AXWindowRef,
    pub pid: i32,
    pub title: String,
    pub app_name: String,
    pub original_frame: F,
}

impl<F> ManagedWindow<F> {
    /// A window with a fresh identifier taken from `ids`.
    pub fn new(
        ax_ref: AXWindowRef,
        pid: i32,
        title: String,
        app_name: String,
        original_frame: F,
        ids: &mut IdSource,
    ) -> (w: Self)
        ensures
            w.id.0 == old(ids).next_window(),
            final(ids).next_window() == crate::ids::bump(old(ids).next_window()),
            final(ids).next_node() == old(ids).next_node(),
            w.ax_ref == ax_ref,
            w.pid == pid,
            w.title@ == title@,
            w.app_name@ == app_name@,
            w.original_frame == original_frame,
    {
        ManagedWindow { id: WindowId::next(ids), ax_ref, pid, title, app_name, original_frame }
    }
}

/// Info about a running application.
#[derive(Debug, Clone)]
pub struct AppInfo {
    pub pid: i32,
    pub name: String,
    pub bundle_id: Option<String>,
}

/// A tiling action that can be triggered by a hotkey.
#[derive(Debug, Clone, Copy, PartialEq, Eq, Structural)]
pub enum TileAction {
    // Halves
    LeftHalf,
    RightHalf,
    TopHalf,
    BottomHalf,
    // Thirds
    LeftThird,
    CenterThird,
    RightThird,
    // Two-thirds
    LeftTwoThirds,
    CenterTwoThirds,
    RightTwoThirds,
    // Quarters
    TopLeftQuarter,
    TopRightQuarter,
    BottomLeftQuarter,
    BottomRightQuarter,
    // Special
    Maximize,
    Center,
    Restore,
    EqualizeAll,
    ToggleZoom,
    // Tiling movement
    MovePaneLeft,
    MovePaneRight,
    MovePaneUp,
    MovePaneDown,
    // Swap
    SwapPaneLeft,
    SwapPaneRight,
    SwapPaneUp,
    SwapPaneDown,
    // Stacking / scroll-to-switch
    StackNext,
    StackPrev,
    // Snap beside nearest window (floating, not BSP)
    SnapToNearest,
}

/// The sizes that repeated presses of a shortcut cycle through, if any.
pub open spec fn spec_cycle_group(a: TileAction) -> Option<Seq<TileAction>> {
    match a {
        TileAction::LeftHalf => Some(
            seq![TileAction::LeftHalf, TileAction::LeftTwoThirds, TileAction::LeftThird],
        ),
        TileAction::RightHalf => Some(
            seq![TileAction::RightHalf, TileAction::RightTwoThirds, TileAction::RightThird],
        ),
        TileAction::TopHalf => Some(seq![TileAction::TopHalf, TileAction::TopHalf, TileAction::TopHalf]),
        TileAction::BottomHalf => Some(
            seq![TileAction::BottomHalf, TileAction::BottomHalf, TileAction::BottomHalf],
        ),
        _ => None,
    }
}

impl TileAction {
    /// Returns the cycle group for size cycling (same shortcut pressed rapidly).
    /// Returns None if this action doesn't participate in cycling.
    pub fn cycle_group(&self) -> (r: Option<&'static [TileAction]>)
        ensures
            match spec_cycle_group(*self) {
                Some(g) => r is Some && r->0@ == g,
                None => r is None,
            },
    {
        match self {
            TileAction::LeftHalf => Some(
                &[TileAction::LeftHalf, TileAction::LeftTwoThirds, TileAction::LeftThird],
            ),
            TileAction::RightHalf => Some(
                &[TileAction::RightHalf, TileAction::RightTwoThirds, TileAction::RightThird],
            ),
            TileAction::TopHalf => Some(&[TileAction::TopHalf, TileAction::TopHalf, TileAction::TopHalf]),
            TileAction::BottomHalf => Some(
                &[TileAction::BottomHalf, TileAction::BottomHalf, TileAction::BottomHalf],
            ),
            _ => None,
        }
    }
}

} // verus!
