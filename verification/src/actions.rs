//! The decisions the window manager takes for a tiling action: which kind
//! of action a hotkey asks for, which size a repeated shortcut selects, and
//! the frames remembered for restoring windows.

use vstd::prelude::*;
use crate::types::{spec_cycle_group, Direction, TileAction};

verus! {

/// How windows are placed: snapped to screen regions, or tiled in the tree.
#[derive(Debug, Clone, Copy, PartialEq, Eq, Structural)]
pub enum TilingMode {
    Snap,
    Bsp,
}

/// What a tiling action asks the window manager to do.
#[derive(Debug, Clone, Copy, PartialEq, Eq, Structural)]
pub enum ActionKind {
    /// Put the window back where it was before it was first tiled.
    Restore,
    /// Give every split of the tree an even ratio.
    EqualizeAll,
    /// Toggle the zoom of the focused pane.
    ToggleZoom,
    /// Move the focused window into the neighbouring pane in a direction,
    /// which then has the focus.
    MoveWindow(Direction),
    /// Swap the focused pane with its neighbour in a direction.
    SwapPane(Direction),
    /// Make the next (`true`) or previous tab of the focused pane active.
    CycleStack(bool),
    /// Snap the window beside the nearest other window.
    SnapToNearest,
    /// Place the window: size it on screen, or tile it in the tree.
    Place,
}

/// The kind of each action.
pub open spec fn kind_of(a: TileAction) -> ActionKind {
    match a {
        TileAction::Restore => ActionKind::Restore,
        TileAction::EqualizeAll => ActionKind::EqualizeAll,
        TileAction::ToggleZoom => ActionKind::ToggleZoom,
        TileAction::MovePaneLeft => ActionKind::MoveWindow(Direction::Left),
        TileAction::MovePaneRight => ActionKind::MoveWindow(Direction::Right),
        TileAction::MovePaneUp => ActionKind::MoveWindow(Direction::Up),
        TileAction::MovePaneDown => ActionKind::MoveWindow(Direction::Down),
        TileAction::SwapPaneLeft => ActionKind::SwapPane(Direction::Left),
        TileAction::SwapPaneRight => ActionKind::SwapPane(Direction::Right),
        TileAction::SwapPaneUp => ActionKind::SwapPane(Direction::Up),
        TileAction::SwapPaneDown => ActionKind::SwapPane(Direction::Down),
        TileAction::StackNext => ActionKind::CycleStack(true),
        TileAction::StackPrev => ActionKind::CycleStack(false),
        TileAction::SnapToNearest => ActionKind::SnapToNearest,
        _ => ActionKind::Place,
    }
}

/// What a tiling action asks the window manager to do.
pub fn classify(action: TileAction) -> (r: ActionKind)
    ensures
        r == kind_of(action),
{
    match action {
        TileAction::Restore => ActionKind::Restore,
        TileAction::EqualizeAll => ActionKind::EqualizeAll,
        TileAction::ToggleZoom => ActionKind::ToggleZoom,
        TileAction::MovePaneLeft => ActionKind::MoveWindow(Direction::Left),
        TileAction::MovePaneRight => ActionKind::MoveWindow(Direction::Right),
        TileAction::MovePaneUp => ActionKind::MoveWindow(Direction::Up),
        TileAction::MovePaneDown => ActionKind::MoveWindow(Direction::Down),
        TileAction::SwapPaneLeft => ActionKind::SwapPane(Direction::Left),
        TileAction::SwapPaneRight => ActionKind::SwapPane(Direction::Right),
        TileAction::SwapPaneUp => ActionKind::SwapPane(Direction::Up),
        TileAction::SwapPaneDown => ActionKind::SwapPane(Direction::Down),
        TileAction::StackNext => ActionKind::CycleStack(true),
        TileAction::StackPrev => ActionKind::CycleStack(false),
        TileAction::SnapToNearest => ActionKind::SnapToNearest,
        _ => ActionKind::Place,
    }
}

/// Milliseconds within which pressing the same shortcut again cycles sizes.
pub const CYCLE_WINDOW_MS: u64 = 1000;

/// The size-cycling state: the last action with the time it was pressed
/// (milliseconds on a monotonic clock), and the position in its cycle group.
#[derive(Debug, Clone, Copy)]
pub struct SizeCycle {
    pub last_action: Option<(TileAction, u64)>,
    pub cycle_index: usize,
}

impl SizeCycle {
    /// The position in the cycle group is within every group.
    pub open spec fn wf(self) -> bool {
        self.cycle_index < 3
    }

    /// Pressing `action` at `now` repeats the last press closely enough to
    /// advance the cycle.
    pub open spec fn repeats(self, action: TileAction, now: u64) -> bool {
        self.last_action matches Some((a, t)) && a == action && now - t < CYCLE_WINDOW_MS
    }

    /// The position in the cycle group after pressing `action` at `now`.
    pub open spec fn next_index(self, action: TileAction, now: u64) -> usize {
        match spec_cycle_group(action) {
            Some(g) => if self.repeats(action, now) {
                ((self.cycle_index + 1) % (g.len() as int)) as usize
            } else {
                0
            },
            None => 0,
        }
    }

    /// The action that pressing `action` at `now` performs: the size its
    /// cycle group has reached, or the action itself.
    pub open spec fn target(self, action: TileAction, now: u64) -> TileAction {
        match spec_cycle_group(action) {
            Some(g) => g[self.next_index(action, now) as int],
            None => action,
        }
    }

    /// The state after pressing `action` at `now`.
    pub open spec fn after(self, action: TileAction, now: u64) -> SizeCycle {
        SizeCycle { last_action: Some((action, now)), cycle_index: self.next_index(action, now) }
    }

    /// No action pressed yet.
    pub fn new() -> (s: Self)
        ensures
            s.wf(),
            s.last_action is None,
            s.cycle_index == 0,
    {
        SizeCycle { last_action: None, cycle_index: 0 }
    }

    /// Record a press of `action` at `now` and return the action to perform.
    /// Pressing a shortcut of a cycle group again within a second advances
    /// to the next size of the group; any other press starts the group over.
    pub fn press(&mut self, action: TileAction, now: u64) -> (r: TileAction)
        requires
            old(self).wf(),
        ensures
            final(self).wf(),
            r == old(self).target(action, now),
            *final(self) == old(self).after(action, now),
    {
        let target = match action.cycle_group() {
            Some(group) => {
                let rapid = match self.last_action {
                    Some((last, at)) => last == action && (now < at || now - at < CYCLE_WINDOW_MS),
                    None => false,
                };
                if rapid {
                    self.cycle_index = (self.cycle_index + 1) % group.len();
                } else {
                    self.cycle_index = 0;
                }
                group[self.cycle_index]
            },
            None => {
                self.cycle_index = 0;
                action
            },
        };
        self.last_action = Some((action, now));
        target
    }
}

/// Whether some remembered frame belongs to process `pid`.
pub open spec fn remembers<F>(entries: Seq<(i32, F)>, pid: i32) -> bool {
    exists|i: int| 0 <= i < entries.len() && (#[trigger] entries[i]).0 == pid
}

/// Position of the first remembered frame of process `pid`.
pub open spec fn first_entry<F>(entries: Seq<(i32, F)>, pid: i32) -> int {
    choose|i: int|
        0 <= i < entries.len() && (#[trigger] entries[i]).0 == pid && forall|j: int|
            0 <= j < i ==> (#[trigger] entries[j]).0 != pid
}

/// The remembered frames after `frame` is remembered for `pid`: the first
/// frame of a process is kept.
pub open spec fn remembered<F>(entries: Seq<(i32, F)>, pid: i32, frame: F) -> Seq<(i32, F)> {
    if remembers(entries, pid) {
        entries
    } else {
        entries.push((pid, frame))
    }
}

/// The frame that restoring process `pid` takes from `entries`, if any.
pub open spec fn restored<F>(entries: Seq<(i32, F)>, pid: i32) -> Option<F> {
    if remembers(entries, pid) {
        Some(entries[first_entry(entries, pid)].1)
    } else {
        None
    }
}

/// The remembered frames after restoring process `pid`.
pub open spec fn after_restore<F>(entries: Seq<(i32, F)>, pid: i32) -> Seq<(i32, F)> {
    if remembers(entries, pid) {
        entries.remove(first_entry(entries, pid))
    } else {
        entries
    }
}

/// The frames windows had before they were first tiled, by process.
/// `F` is a window frame, which the library carries without reading.
#[derive(Debug, Clone)]
pub struct OriginalFrames<F> {
    entries: Vec<(i32, F)>,
}

impl<F> View for OriginalFrames<F> {
    type V = Seq<(i32, F)>;

    closed spec fn view(&self) -> Seq<(i32, F)> {
        self.entries@
    }
}

impl<F> OriginalFrames<F> {
    /// No frame remembered.
    pub fn new() -> (s: Self)
        ensures
            s@ == Seq::<(i32, F)>::empty(),
    {
        OriginalFrames { entries: Vec::new() }
    }

    /// Whether a frame of process `pid` is remembered.
    pub fn contains(&self, pid: i32) -> (r: bool)
        ensures
            r == remembers(self@, pid),
    {
        let mut i: usize = 0;
        while i < self.entries.len()
            invariant
                i <= self.entries.len(),
                forall|j: int| 0 <= j < i ==> (#[trigger] self.entries@[j]).0 != pid,
            decreases self.entries.len() - i,
        {
            if self.entries[i].0 == pid {
                assert(self.entries@[i as int].0 == pid);
                return true;
            }
            i = i + 1;
        }
        false
    }

    /// Remember `frame` for process `pid`, unless a frame of that process
    /// is remembered already: the first frame seen is kept.
    pub fn remember(&mut self, pid: i32, frame: F)
        ensures
            final(self)@ == remembered(old(self)@, pid, frame),
    {
        if !self.contains(pid) {
            self.entries.push((pid, frame));
        }
    }

    /// Forget and return the first remembered frame of process `pid`.
    pub fn take(&mut self, pid: i32) -> (r: Option<F>)
        ensures
            r == restored(old(self)@, pid),
            final(self)@ == after_restore(old(self)@, pid),
    {
        let mut i: usize = 0;
        while i < self.entries.len()
            invariant
                i <= self.entries.len(),
                self.entries@ == old(self).entries@,
                forall|j: int| 0 <= j < i ==> (#[trigger] self.entries@[j]).0 != pid,
            decreases self.entries.len() - i,
        {
            if self.entries[i].0 == pid {
                proof {
                    let e = self.entries@;
                    assert(e[i as int].0 == pid);
                    let c = first_entry(e, pid);
                    if c < i {
                        assert(e[c].0 != pid);
                    }
                    if i < c {
                        assert(e[i as int].0 != pid);
                    }
                }
                let (_, frame) = self.entries.remove(i);
                return Some(frame);
            }
            i = i + 1;
        }
        None
    }
}

} // verus!
