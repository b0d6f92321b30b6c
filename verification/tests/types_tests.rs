use tile::ids::{IdSource, NodeId, WindowId};
use tile::types::{AXWindowRef, Orientation, TileAction};

#[test]
fn test_cycle_group_left() {
    let group = TileAction::LeftHalf.cycle_group().unwrap();
    assert_eq!(group.len(), 3);
    assert_eq!(group[0], TileAction::LeftHalf);
    assert_eq!(group[1], TileAction::LeftTwoThirds);
    assert_eq!(group[2], TileAction::LeftThird);
}

#[test]
fn test_cycle_group_right() {
    let group = TileAction::RightHalf.cycle_group().unwrap();
    assert_eq!(group.len(), 3);
    assert_eq!(group[0], TileAction::RightHalf);
    assert_eq!(group[1], TileAction::RightTwoThirds);
    assert_eq!(group[2], TileAction::RightThird);
}

#[test]
fn test_cycle_group_top_bottom_repeat() {
    let top = TileAction::TopHalf.cycle_group().unwrap();
    assert_eq!(top.len(), 3);
    assert!(top.iter().all(|a| *a == TileAction::TopHalf));

    let bottom = TileAction::BottomHalf.cycle_group().unwrap();
    assert_eq!(bottom.len(), 3);
    assert!(bottom.iter().all(|a| *a == TileAction::BottomHalf));
}

#[test]
fn test_cycle_group_none_for_non_cycling() {
    assert!(TileAction::Maximize.cycle_group().is_none());
    assert!(TileAction::Center.cycle_group().is_none());
    assert!(TileAction::TopLeftQuarter.cycle_group().is_none());
    assert!(TileAction::LeftThird.cycle_group().is_none());
    assert!(TileAction::MovePaneLeft.cycle_group().is_none());
}

#[test]
fn test_orientation_toggle() {
    assert_eq!(Orientation::Horizontal.toggle(), Orientation::Vertical);
    assert_eq!(Orientation::Vertical.toggle(), Orientation::Horizontal);
}

#[test]
fn test_orientation_double_toggle() {
    let o = Orientation::Horizontal;
    assert_eq!(o.toggle().toggle(), o);
}

#[test]
fn test_node_id_unique() {
    let mut ids = IdSource::new();
    let a = NodeId::next(&mut ids);
    let b = NodeId::next(&mut ids);
    let c = NodeId::next(&mut ids);
    assert_ne!(a, b);
    assert_ne!(b, c);
    assert_ne!(a, c);
}

#[test]
fn test_window_id_unique() {
    let mut ids = IdSource::new();
    let a = WindowId::next(&mut ids);
    let b = WindowId::next(&mut ids);
    assert_ne!(a, b);
}

#[test]
fn ids_start_at_one_and_count_up() {
    let mut ids = IdSource::new();
    assert_eq!(NodeId::next(&mut ids), NodeId(1));
    assert_eq!(NodeId::next(&mut ids), NodeId(2));
    // Window identifiers are counted separately.
    assert_eq!(WindowId::next(&mut ids), WindowId(1));
    assert_eq!(NodeId::next(&mut ids), NodeId(3));
    assert_eq!(WindowId::next(&mut ids), WindowId(2));
}

#[test]
fn ax_window_ref_new_keeps_fields() {
    let r = AXWindowRef::new(42, 3, 0xdead);
    assert_eq!(r.pid, 42);
    assert_eq!(r.window_index, 3);
    assert_eq!(r.raw, 0xdead);
}

#[test]
fn cycle_group_of_every_other_action_is_none() {
    let cycling = [
        TileAction::LeftHalf,
        TileAction::RightHalf,
        TileAction::TopHalf,
        TileAction::BottomHalf,
    ];
    let all = [
        TileAction::LeftHalf, TileAction::RightHalf, TileAction::TopHalf, TileAction::BottomHalf,
        TileAction::LeftThird, TileAction::CenterThird, TileAction::RightThird,
        TileAction::LeftTwoThirds, TileAction::CenterTwoThirds, TileAction::RightTwoThirds,
        TileAction::TopLeftQuarter, TileAction::TopRightQuarter, TileAction::BottomLeftQuarter,
        TileAction::BottomRightQuarter, TileAction::Maximize, TileAction::Center,
        TileAction::Restore, TileAction::EqualizeAll, TileAction::ToggleZoom,
        TileAction::MovePaneLeft, TileAction::MovePaneRight, TileAction::MovePaneUp,
        TileAction::MovePaneDown, TileAction::SwapPaneLeft, TileAction::SwapPaneRight,
        TileAction::SwapPaneUp, TileAction::SwapPaneDown, TileAction::StackNext,
        TileAction::StackPrev, TileAction::SnapToNearest,
    ];
    for a in all {
        assert_eq!(a.cycle_group().is_some(), cycling.contains(&a));
    }
}
