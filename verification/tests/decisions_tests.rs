use tile::actions::{classify, ActionKind, OriginalFrames, SizeCycle, TilingMode};
use tile::hotkeys::{default_bindings, registrations, EventHotKeyID, HotkeyTable, TILE_SIGNATURE};
use tile::ids::NodeId;
use tile::layout::{detect_zone, edge_zone, pane_zone, split_plan, EdgeProximity, PaneOffset, SnapZone};
use tile::observer::{event_from_notification, is_standard_window, WindowEvent};
use tile::types::{Direction, Orientation, TileAction};

fn no_edges() -> EdgeProximity {
    EdgeProximity {
        near_left: false,
        near_right: false,
        near_top: false,
        near_bottom: false,
        near_left_corner: false,
        near_right_corner: false,
    }
}

/// Offsets of a cursor at relative position (rx, ry) inside a pane.
fn offset(rx: f64, ry: f64) -> PaneOffset {
    PaneOffset {
        x_below_quarter: rx < 0.25,
        x_above_quarter: rx > 0.25,
        x_below_three_quarters: rx < 0.75,
        x_above_three_quarters: rx > 0.75,
        y_below_quarter: ry < 0.25,
        y_above_quarter: ry > 0.25,
        y_below_three_quarters: ry < 0.75,
        y_above_three_quarters: ry > 0.75,
    }
}

#[test]
fn tile_signature_is_tile_in_big_endian() {
    assert_eq!(TILE_SIGNATURE, u32::from_be_bytes(*b"TILE"));
}

#[test]
fn default_hotkeys_are_rectangle_bindings() {
    let b = default_bindings();
    assert_eq!(b.len(), 27);
    assert_eq!(b[0], (0x7B, 0x1800, TileAction::LeftHalf));
    assert_eq!(b[14], (0x24, 0x1800, TileAction::Maximize));
    assert_eq!(b[19], (0x7B, 0x1A00, TileAction::MovePaneLeft));
    assert_eq!(b[26], (0x7D, 0x1900, TileAction::SwapPaneDown));
}

#[test]
fn registered_hotkeys_dispatch_their_actions() {
    let bindings = default_bindings();
    let regs = registrations(&bindings);
    let table = HotkeyTable::new(&bindings);
    assert_eq!(regs.len(), bindings.len());
    for (i, (k, m, id)) in regs.iter().enumerate() {
        assert_eq!((*k, *m), (bindings[i].0, bindings[i].1));
        assert_eq!(*id, EventHotKeyID { signature: TILE_SIGNATURE, id: i as u32 });
        assert_eq!(table.action_for(*id), Some(bindings[i].2));
    }
}

#[test]
fn foreign_or_unknown_hotkeys_dispatch_nothing() {
    let table = HotkeyTable::new(&default_bindings());
    assert_eq!(table.action_for(EventHotKeyID { signature: 0, id: 0 }), None);
    assert_eq!(table.action_for(EventHotKeyID { signature: TILE_SIGNATURE, id: 27 }), None);
    assert_eq!(
        table.action_for(EventHotKeyID { signature: TILE_SIGNATURE, id: 2 }),
        Some(TileAction::TopHalf)
    );
}

#[test]
fn notifications_decode_to_events() {
    assert_eq!(event_from_notification("AXWindowCreated", 0), Some(WindowEvent::Created { pid: 0 }));
    assert_eq!(event_from_notification("AXUIElementDestroyed", 5), Some(WindowEvent::Destroyed { pid: 5 }));
    assert_eq!(event_from_notification("AXWindowMoved", 1), Some(WindowEvent::Moved { pid: 1 }));
    assert_eq!(event_from_notification("AXWindowResized", 1), Some(WindowEvent::Resized { pid: 1 }));
    assert_eq!(
        event_from_notification("AXFocusedWindowChanged", 2),
        Some(WindowEvent::FocusChanged { pid: 2 })
    );
    assert_eq!(
        event_from_notification("AXApplicationActivated", 3),
        Some(WindowEvent::AppActivated { pid: 3 })
    );
    assert_eq!(
        event_from_notification("AXApplicationDeactivated", 4),
        Some(WindowEvent::AppDeactivated { pid: 4 })
    );
    assert_eq!(event_from_notification("AXTitleChanged", 0), None);
    assert_eq!(event_from_notification("", 0), None);
}

#[test]
fn pane_regions_select_stack_or_split() {
    let p = NodeId(7);
    assert_eq!(pane_zone(p, offset(0.5, 0.5)), Some(SnapZone::Stack(p)));
    assert_eq!(pane_zone(p, offset(0.1, 0.5)), Some(SnapZone::SplitLeft(p)));
    assert_eq!(pane_zone(p, offset(0.9, 0.5)), Some(SnapZone::SplitRight(p)));
    assert_eq!(pane_zone(p, offset(0.5, 0.1)), Some(SnapZone::SplitTop(p)));
    assert_eq!(pane_zone(p, offset(0.5, 0.9)), Some(SnapZone::SplitBottom(p)));
    // Exactly on a quarter line selects nothing.
    assert_eq!(pane_zone(p, offset(0.25, 0.5)), None);
}

#[test]
fn screen_edges_select_zones() {
    let mut e = no_edges();
    assert_eq!(edge_zone(e), None);
    e.near_left = true;
    e.near_left_corner = true;
    assert_eq!(edge_zone(e), Some(SnapZone::LeftHalf));
    e.near_top = true;
    assert_eq!(edge_zone(e), Some(SnapZone::TopLeftQuarter));
    let top = EdgeProximity { near_top: true, ..no_edges() };
    assert_eq!(edge_zone(top), Some(SnapZone::Maximize));
    let br = EdgeProximity { near_bottom: true, near_right: true, near_right_corner: true, ..no_edges() };
    assert_eq!(edge_zone(br), Some(SnapZone::BottomRightQuarter));
    let bottom = EdgeProximity { near_bottom: true, ..no_edges() };
    assert_eq!(edge_zone(bottom), Some(SnapZone::BottomHalf));
    let right = EdgeProximity { near_right: true, near_right_corner: true, ..no_edges() };
    assert_eq!(edge_zone(right), Some(SnapZone::RightHalf));
}

#[test]
fn pane_takes_priority_over_screen_edge() {
    let p = NodeId(3);
    let edges = EdgeProximity { near_left: true, near_left_corner: true, ..no_edges() };
    let hits = vec![(p, offset(0.1, 0.5))];
    assert_eq!(detect_zone(&hits, edges), Some(SnapZone::SplitLeft(p)));
    // A pane whose region selects nothing falls through to the next one.
    let q = NodeId(4);
    let hits = vec![(p, offset(0.25, 0.25)), (q, offset(0.5, 0.5))];
    assert_eq!(detect_zone(&hits, edges), Some(SnapZone::Stack(q)));
    assert_eq!(detect_zone(&Vec::new(), edges), Some(SnapZone::LeftHalf));
}

#[test]
fn split_plans_only_in_bsp_mode() {
    let p = NodeId(9);
    assert_eq!(split_plan(SnapZone::SplitLeft(p), TilingMode::Bsp), Some((p, Orientation::Horizontal, false)));
    assert_eq!(split_plan(SnapZone::SplitRight(p), TilingMode::Bsp), Some((p, Orientation::Horizontal, true)));
    assert_eq!(split_plan(SnapZone::SplitTop(p), TilingMode::Bsp), Some((p, Orientation::Vertical, false)));
    assert_eq!(split_plan(SnapZone::SplitBottom(p), TilingMode::Bsp), Some((p, Orientation::Vertical, true)));
    assert_eq!(split_plan(SnapZone::Stack(p), TilingMode::Bsp), None);
    assert_eq!(split_plan(SnapZone::LeftHalf, TilingMode::Bsp), None);
    assert_eq!(split_plan(SnapZone::SplitLeft(p), TilingMode::Snap), None);
}

#[test]
fn actions_are_classified() {
    assert_eq!(classify(TileAction::Restore), ActionKind::Restore);
    assert_eq!(classify(TileAction::EqualizeAll), ActionKind::EqualizeAll);
    assert_eq!(classify(TileAction::ToggleZoom), ActionKind::ToggleZoom);
    assert_eq!(classify(TileAction::MovePaneUp), ActionKind::MoveWindow(Direction::Up));
    assert_eq!(classify(TileAction::MovePaneLeft), ActionKind::MoveWindow(Direction::Left));
    assert_eq!(classify(TileAction::MovePaneRight), ActionKind::MoveWindow(Direction::Right));
    assert_eq!(classify(TileAction::MovePaneDown), ActionKind::MoveWindow(Direction::Down));
    assert_eq!(classify(TileAction::SwapPaneLeft), ActionKind::SwapPane(Direction::Left));
    assert_eq!(classify(TileAction::StackNext), ActionKind::CycleStack(true));
    assert_eq!(classify(TileAction::StackPrev), ActionKind::CycleStack(false));
    assert_eq!(classify(TileAction::SnapToNearest), ActionKind::SnapToNearest);
    assert_eq!(classify(TileAction::LeftHalf), ActionKind::Place);
    assert_eq!(classify(TileAction::Center), ActionKind::Place);
}

#[test]
fn repeated_shortcut_cycles_sizes() {
    let mut s = SizeCycle::new();
    assert_eq!(s.press(TileAction::LeftHalf, 10_000), TileAction::LeftHalf);
    assert_eq!(s.press(TileAction::LeftHalf, 10_500), TileAction::LeftTwoThirds);
    assert_eq!(s.press(TileAction::LeftHalf, 11_000), TileAction::LeftThird);
    assert_eq!(s.press(TileAction::LeftHalf, 11_999), TileAction::LeftHalf);
    // A pause of a second or more starts over.
    assert_eq!(s.press(TileAction::LeftHalf, 12_999), TileAction::LeftHalf);
    assert_eq!(s.cycle_index, 0);
}

#[test]
fn other_shortcut_restarts_cycle() {
    let mut s = SizeCycle::new();
    s.press(TileAction::LeftHalf, 0);
    assert_eq!(s.press(TileAction::LeftHalf, 100), TileAction::LeftTwoThirds);
    assert_eq!(s.press(TileAction::RightHalf, 200), TileAction::RightHalf);
    assert_eq!(s.press(TileAction::Maximize, 300), TileAction::Maximize);
    assert_eq!(s.cycle_index, 0);
    assert_eq!(s.press(TileAction::RightHalf, 400), TileAction::RightHalf);
    assert_eq!(s.last_action, Some((TileAction::RightHalf, 400)));
}

#[test]
fn restore_gives_first_remembered_frame() {
    let mut frames: OriginalFrames<(i32, i32)> = OriginalFrames::new();
    assert!(!frames.contains(5));
    frames.remember(5, (10, 20));
    frames.remember(5, (30, 40));
    frames.remember(6, (1, 2));
    assert!(frames.contains(5));
    assert_eq!(frames.take(5), Some((10, 20)));
    assert!(!frames.contains(5));
    assert_eq!(frames.take(5), None);
    assert_eq!(frames.take(6), Some((1, 2)));
}

#[test]
fn only_standard_windows_are_listed() {
    assert!(is_standard_window(Some("AXWindow"), Some("AXStandardWindow")));
    assert!(!is_standard_window(Some("AXWindow"), Some("AXDialog")));
    assert!(!is_standard_window(Some("AXSheet"), Some("AXStandardWindow")));
    assert!(!is_standard_window(Some("AXWindow"), None));
    assert!(!is_standard_window(None, Some("AXStandardWindow")));
}
