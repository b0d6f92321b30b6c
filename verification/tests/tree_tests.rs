use tile::ids::{IdSource, NodeId, WindowId};
use tile::tiling::TileTree;
use tile::tree::Node;
use tile::types::{AXWindowRef, ManagedWindow, Orientation};

type Frame = (f64, f64, f64, f64);
type Tree = TileTree<f32, Frame, (f64, f64)>;

fn test_window(ids: &mut IdSource, name: &str) -> ManagedWindow<Frame> {
    ManagedWindow::new(
        AXWindowRef::new(1, 0, 0),
        1,
        name.to_string(),
        "TestApp".to_string(),
        (0.0, 0.0, 800.0, 600.0),
        ids,
    )
}

fn test_window_with_pid(ids: &mut IdSource, name: &str, pid: i32) -> ManagedWindow<Frame> {
    ManagedWindow::new(
        AXWindowRef::new(pid, 0, 0),
        pid,
        name.to_string(),
        "TestApp".to_string(),
        (0.0, 0.0, 800.0, 600.0),
        ids,
    )
}

fn new_tree() -> Tree {
    TileTree::new((8.0, 8.0), 0.5)
}

fn add(tree: &mut Tree, name: &str) {
    let w = test_window(&mut tree.ids, name);
    tree.add_window(w);
}

fn titles(node: &Node<f32, Frame>, pane: NodeId) -> Vec<String> {
    match node.find(pane) {
        Some(Node::Pane { tabs, .. }) => tabs.iter().map(|w| w.title.clone()).collect(),
        _ => panic!("Expected pane"),
    }
}

#[test]
fn test_add_one_window() {
    let mut tree = new_tree();
    add(&mut tree, "win1");
    assert_eq!(tree.root.pane_count(), 1);
    assert_eq!(tree.root.window_count(), 1);
}

#[test]
fn test_add_two_windows() {
    let mut tree = new_tree();
    add(&mut tree, "win1");
    add(&mut tree, "win2");
    assert_eq!(tree.root.pane_count(), 2);
    assert_eq!(tree.root.window_count(), 2);
}

#[test]
fn test_add_three_windows() {
    let mut tree = new_tree();
    add(&mut tree, "win1");
    add(&mut tree, "win2");
    add(&mut tree, "win3");
    assert_eq!(tree.root.pane_count(), 3);
    assert_eq!(tree.root.window_count(), 3);
}

#[test]
fn test_add_four_windows() {
    let mut tree = new_tree();
    for i in 1..=4 {
        add(&mut tree, &format!("win{}", i));
    }
    assert_eq!(tree.root.pane_count(), 4);
    assert_eq!(tree.root.window_count(), 4);
}

#[test]
fn test_add_five_windows() {
    let mut tree = new_tree();
    for i in 1..=5 {
        add(&mut tree, &format!("win{}", i));
    }
    assert_eq!(tree.root.pane_count(), 5);
    assert_eq!(tree.root.window_count(), 5);
}

#[test]
fn test_remove_window_cleans_up() {
    let mut tree = new_tree();
    let w1 = test_window(&mut tree.ids, "win1");
    let w1_id = w1.id;
    tree.add_window(w1);
    add(&mut tree, "win2");

    assert_eq!(tree.root.pane_count(), 2);
    tree.remove_window(w1_id);
    assert_eq!(tree.root.pane_count(), 1);
}

#[test]
fn test_remove_second_window() {
    let mut tree = new_tree();
    add(&mut tree, "win1");
    let w2 = test_window(&mut tree.ids, "win2");
    let w2_id = w2.id;
    tree.add_window(w2);

    assert_eq!(tree.root.pane_count(), 2);
    let removed = tree.remove_window(w2_id);
    assert!(removed.is_some());
    assert_eq!(removed.unwrap().title, "win2");
    assert_eq!(tree.root.pane_count(), 1);
    assert_eq!(tree.root.window_count(), 1);
}

#[test]
fn test_remove_middle_of_three() {
    let mut tree = new_tree();
    add(&mut tree, "win1");
    let w2 = test_window(&mut tree.ids, "win2");
    let w2_id = w2.id;
    tree.add_window(w2);
    add(&mut tree, "win3");

    assert_eq!(tree.root.pane_count(), 3);
    tree.remove_window(w2_id);
    assert_eq!(tree.root.pane_count(), 2);
    assert_eq!(tree.root.window_count(), 2);
}

#[test]
fn test_remove_nonexistent_window() {
    let mut tree = new_tree();
    add(&mut tree, "win1");
    let fake_id = WindowId::next(&mut tree.ids);
    let result = tree.remove_window(fake_id);
    assert!(result.is_none());
    assert_eq!(tree.root.window_count(), 1);
}

#[test]
fn test_remove_all_windows() {
    let mut tree = new_tree();
    let w1 = test_window(&mut tree.ids, "win1");
    let w1_id = w1.id;
    let w2 = test_window(&mut tree.ids, "win2");
    let w2_id = w2.id;
    tree.add_window(w1);
    tree.add_window(w2);

    tree.remove_window(w1_id);
    tree.remove_window(w2_id);
    assert_eq!(tree.root.window_count(), 0);
    assert_eq!(tree.root.pane_count(), 1);
}

#[test]
fn test_split_pane_creates_two_children() {
    let mut ids = IdSource::new();
    let w = test_window(&mut ids, "win1");
    let mut node: Node<f32, Frame> = Node::new_pane_with(w, &mut ids);
    let pane_id = node.id();
    let new_id = node.split_pane(pane_id, Orientation::Horizontal, 0.5, &mut ids);
    assert!(new_id.is_some());
    assert_eq!(node.pane_count(), 2);
    assert_eq!(node.window_count(), 1);
}

#[test]
fn test_split_pane_vertical() {
    let mut ids = IdSource::new();
    let w = test_window(&mut ids, "win1");
    let mut node: Node<f32, Frame> = Node::new_pane_with(w, &mut ids);
    let pane_id = node.id();
    let split = node.split_pane(pane_id, Orientation::Vertical, 0.5, &mut ids);
    assert!(split.is_some());
    assert_eq!(node.pane_count(), 2);
    if let Node::Split { orientation, .. } = &node {
        assert_eq!(*orientation, Orientation::Vertical);
    } else {
        panic!("Expected split node");
    }
}

#[test]
fn test_split_pane_nonexistent() {
    let mut ids = IdSource::new();
    let mut node: Node<f32, Frame> = Node::new_pane(&mut ids);
    let fake_id = NodeId::next(&mut ids);
    let result = node.split_pane(fake_id, Orientation::Horizontal, 0.5, &mut ids);
    assert!(result.is_none());
}

#[test]
fn test_split_nested() {
    let mut ids = IdSource::new();
    let w = test_window(&mut ids, "win1");
    let mut node: Node<f32, Frame> = Node::new_pane_with(w, &mut ids);
    let pane_id = node.id();
    let (_first, second) = node.split_pane(pane_id, Orientation::Horizontal, 0.5, &mut ids).unwrap();
    let nested = node.split_pane(second, Orientation::Vertical, 0.5, &mut ids);
    assert!(nested.is_some());
    assert_eq!(node.pane_count(), 3);
}

#[test]
fn test_split_pane_preserves_existing_content() {
    let mut ids = IdSource::new();
    let w = test_window(&mut ids, "original");
    let mut node: Node<f32, Frame> = Node::new_pane_with(w, &mut ids);
    let pane_id = node.id();
    node.split_pane(pane_id, Orientation::Horizontal, 0.5, &mut ids);
    assert_eq!(node.window_count(), 1);
    let all = node.all_windows();
    assert_eq!(all[0].title, "original");
}

#[test]
fn test_split_pane_custom_ratio() {
    let mut ids = IdSource::new();
    let w = test_window(&mut ids, "win1");
    let mut node: Node<f32, Frame> = Node::new_pane_with(w, &mut ids);
    let pane_id = node.id();
    node.split_pane(pane_id, Orientation::Horizontal, 0.7, &mut ids);
    if let Node::Split { ratio, .. } = &node {
        assert!((*ratio - 0.7).abs() < 0.001);
    } else {
        panic!("Expected split node");
    }
}

#[test]
fn test_stack_window_adds_tab() {
    let mut ids = IdSource::new();
    let w = test_window(&mut ids, "win1");
    let mut node: Node<f32, Frame> = Node::new_pane_with(w, &mut ids);
    let pane_id = node.id();
    let w2 = test_window(&mut ids, "win2");
    let success = node.stack_window(pane_id, w2);
    assert!(success);
    assert_eq!(node.window_count(), 2);
    if let Node::Pane { tabs, active, .. } = &node {
        assert_eq!(tabs.len(), 2);
        assert_eq!(*active, 1);
    } else {
        panic!("Expected pane node");
    }
}

#[test]
fn test_stack_window_wrong_pane() {
    let mut ids = IdSource::new();
    let w = test_window(&mut ids, "win1");
    let mut node: Node<f32, Frame> = Node::new_pane_with(w, &mut ids);
    let fake_id = NodeId::next(&mut ids);
    let w2 = test_window(&mut ids, "win2");
    let success = node.stack_window(fake_id, w2);
    assert!(!success);
    assert_eq!(node.window_count(), 1);
}

#[test]
fn test_stack_multiple_tabs() {
    let mut ids = IdSource::new();
    let mut node: Node<f32, Frame> = Node::new_pane(&mut ids);
    let pane_id = node.id();
    for i in 0..5 {
        let w = test_window(&mut ids, &format!("tab{}", i));
        node.stack_window(pane_id, w);
    }
    assert_eq!(node.window_count(), 5);
    assert_eq!(node.pane_count(), 1);
}

#[test]
fn test_stack_window_in_nested_split() {
    let mut ids = IdSource::new();
    let w = test_window(&mut ids, "win1");
    let mut node: Node<f32, Frame> = Node::new_pane_with(w, &mut ids);
    let pane_id = node.id();
    let (_first, second) = node.split_pane(pane_id, Orientation::Horizontal, 0.5, &mut ids).unwrap();
    let w2 = test_window(&mut ids, "stacked");
    let success = node.stack_window(second, w2);
    assert!(success);
    assert_eq!(node.window_count(), 2);
}

#[test]
fn test_swap_panes_contents() {
    let mut tree = new_tree();
    let l = test_window_with_pid(&mut tree.ids, "left_win", 100);
    tree.add_window(l);
    let r = test_window_with_pid(&mut tree.ids, "right_win", 200);
    tree.add_window(r);

    let pane_ids = tree.root.pane_ids();
    let (a, b) = (pane_ids[0], pane_ids[1]);
    let a_title = titles(&tree.root, a)[0].clone();
    let b_title = titles(&tree.root, b)[0].clone();

    tree.swap_panes(a, b);

    assert_eq!(titles(&tree.root, a)[0], b_title);
    assert_eq!(titles(&tree.root, b)[0], a_title);
}

#[test]
fn test_swap_panes_same_id() {
    let mut tree = new_tree();
    add(&mut tree, "win1");
    let pane_ids = tree.root.pane_ids();
    let a = pane_ids[0];
    tree.swap_panes(a, a);
    assert_eq!(titles(&tree.root, a)[0], "win1");
}

#[test]
fn test_swap_panes_double_swap_restores() {
    let mut tree = new_tree();
    add(&mut tree, "win_a");
    add(&mut tree, "win_b");
    let pane_ids = tree.root.pane_ids();
    let (a, b) = (pane_ids[0], pane_ids[1]);

    tree.swap_panes(a, b);
    tree.swap_panes(a, b);

    assert_eq!(titles(&tree.root, a)[0], "win_a");
    assert_eq!(titles(&tree.root, b)[0], "win_b");
}

fn set_ratios(node: &mut Node<f32, Frame>, val: f32) {
    if let Node::Split { ratio, first, second, .. } = node {
        *ratio = val;
        set_ratios(first, val);
        set_ratios(second, val);
    }
}

fn check_ratios(node: &Node<f32, Frame>) {
    if let Node::Split { ratio, first, second, .. } = node {
        assert_eq!(*ratio, 0.5);
        check_ratios(first);
        check_ratios(second);
    }
}

#[test]
fn test_equalize() {
    let mut tree = new_tree();
    add(&mut tree, "win1");
    add(&mut tree, "win2");

    if let Node::Split { ratio, .. } = &mut tree.root {
        *ratio = 0.3;
    }
    let even = tree.even_ratio;
    tree.root.equalize_all(even);
    if let Node::Split { ratio, .. } = &tree.root {
        assert_eq!(*ratio, 0.5);
    }
}

#[test]
fn test_equalize_nested() {
    let mut tree = new_tree();
    add(&mut tree, "win1");
    add(&mut tree, "win2");
    add(&mut tree, "win3");
    set_ratios(&mut tree.root, 0.7);
    let even = tree.even_ratio;
    tree.root.equalize_all(even);
    check_ratios(&tree.root);
}

#[test]
fn test_equalize_single_pane_noop() {
    let mut tree = new_tree();
    add(&mut tree, "win1");
    let even = tree.even_ratio;
    tree.root.equalize_all(even);
    assert_eq!(tree.root.pane_count(), 1);
}

#[test]
fn test_toggle_zoom() {
    let mut tree = new_tree();
    add(&mut tree, "win1");
    add(&mut tree, "win2");

    let pane_ids = tree.root.pane_ids();
    let pane = pane_ids[0];

    assert!(tree.root.has_zoomed_pane().is_none());
    tree.root.toggle_zoom(pane);
    assert_eq!(tree.root.has_zoomed_pane(), Some(pane));
    tree.root.toggle_zoom(pane);
    assert!(tree.root.has_zoomed_pane().is_none());
}

#[test]
fn test_toggle_zoom_nonexistent_pane() {
    let mut ids = IdSource::new();
    let mut node: Node<f32, Frame> = Node::new_pane(&mut ids);
    let fake = NodeId::next(&mut ids);
    assert!(!node.toggle_zoom(fake));
}

#[test]
fn test_rotate_tree() {
    let mut tree = new_tree();
    add(&mut tree, "win1");
    add(&mut tree, "win2");

    if let Node::Split { orientation, .. } = &tree.root {
        assert_eq!(*orientation, Orientation::Horizontal);
    }
    tree.root.rotate_tree();
    if let Node::Split { orientation, .. } = &tree.root {
        assert_eq!(*orientation, Orientation::Vertical);
    }
    tree.root.rotate_tree();
    if let Node::Split { orientation, .. } = &tree.root {
        assert_eq!(*orientation, Orientation::Horizontal);
    }
}

fn count_orientations(node: &Node<f32, Frame>, h: &mut usize, v: &mut usize) {
    if let Node::Split { orientation, first, second, .. } = node {
        match orientation {
            Orientation::Horizontal => *h += 1,
            Orientation::Vertical => *v += 1,
        }
        count_orientations(first, h, v);
        count_orientations(second, h, v);
    }
}

#[test]
fn test_rotate_tree_nested() {
    let mut tree = new_tree();
    add(&mut tree, "win1");
    add(&mut tree, "win2");

    let focused = tree.focused_pane.unwrap();
    if let Some((_first, new_id)) = tree.root.split_pane(focused, Orientation::Vertical, 0.5, &mut tree.ids) {
        let w = test_window(&mut tree.ids, "win3");
        tree.root.stack_window(new_id, w);
    }

    tree.root.rotate_tree();

    let (mut h, mut v) = (0, 0);
    count_orientations(&tree.root, &mut h, &mut v);
    // Root H->V, nested V->H
    assert_eq!(v, 1);
    assert_eq!(h, 1);
}

#[test]
fn test_rotate_single_pane_noop() {
    let mut tree = new_tree();
    add(&mut tree, "win1");
    tree.root.rotate_tree();
    assert_eq!(tree.root.pane_count(), 1);
}

#[test]
fn test_cleanup_removes_empty_panes() {
    let mut ids = IdSource::new();
    let w = test_window(&mut ids, "win1");
    let mut node: Node<f32, Frame> = Node::new_pane_with(w, &mut ids);
    let pane_id = node.id();
    node.split_pane(pane_id, Orientation::Horizontal, 0.5, &mut ids);
    assert_eq!(node.pane_count(), 2);

    node.cleanup();
    assert_eq!(node.pane_count(), 1);
    assert_eq!(node.window_count(), 1);
}

#[test]
fn test_cleanup_collapses_single_child() {
    let mut tree = new_tree();
    let w1 = test_window(&mut tree.ids, "win1");
    let w1_id = w1.id;
    tree.add_window(w1);
    add(&mut tree, "win2");
    add(&mut tree, "win3");

    assert_eq!(tree.root.pane_count(), 3);
    tree.remove_window(w1_id);
    assert_eq!(tree.root.pane_count(), 2);
}

#[test]
fn test_cleanup_no_effect_on_full_tree() {
    let mut tree = new_tree();
    add(&mut tree, "win1");
    add(&mut tree, "win2");
    let count_before = tree.root.pane_count();
    tree.root.cleanup();
    assert_eq!(tree.root.pane_count(), count_before);
}

#[test]
fn test_cleanup_empty_first_child() {
    let mut ids = IdSource::new();
    let mut node: Node<f32, Frame> = Node::new_pane(&mut ids);
    let pane_id = node.id();
    let (_first, new_id) = node.split_pane(pane_id, Orientation::Horizontal, 0.5, &mut ids).unwrap();
    let w = test_window(&mut ids, "in_second");
    node.stack_window(new_id, w);

    assert_eq!(node.pane_count(), 2);
    node.cleanup();
    assert_eq!(node.pane_count(), 1);
    assert_eq!(node.window_count(), 1);
}

#[test]
fn test_find_pane_with_window() {
    let mut tree = new_tree();
    let w = test_window(&mut tree.ids, "findme");
    let wid = w.id;
    tree.add_window(w);
    let found = tree.root.find_pane_with_window(wid);
    assert!(found.is_some());
}

#[test]
fn test_find_pane_with_window_not_found() {
    let mut tree = new_tree();
    let other = WindowId::next(&mut tree.ids);
    let found = tree.root.find_pane_with_window(other);
    assert!(found.is_none());
}

#[test]
fn test_find_pane_by_pid() {
    let mut tree = new_tree();
    let w = test_window_with_pid(&mut tree.ids, "app1", 42);
    tree.add_window(w);
    let found = tree.root.find_pane_by_pid(42);
    assert!(found.is_some());
}

#[test]
fn test_find_pane_by_pid_not_found() {
    let tree = new_tree();
    assert!(tree.root.find_pane_by_pid(9999).is_none());
}

#[test]
fn test_pane_ids_order() {
    let mut tree = new_tree();
    add(&mut tree, "a");
    add(&mut tree, "b");
    add(&mut tree, "c");
    let ids = tree.root.pane_ids();
    assert_eq!(ids.len(), 3);
    for i in 0..ids.len() {
        for j in (i + 1)..ids.len() {
            assert_ne!(ids[i], ids[j]);
        }
    }
}

#[test]
fn test_all_windows() {
    let mut tree = new_tree();
    add(&mut tree, "a");
    add(&mut tree, "b");
    let pane_ids = tree.root.pane_ids();
    let w = test_window(&mut tree.ids, "c");
    tree.root.stack_window(pane_ids[0], w);

    let all = tree.root.all_windows();
    assert_eq!(all.len(), 3);
}

#[test]
fn test_find_node_by_id() {
    let mut tree = new_tree();
    add(&mut tree, "win1");
    add(&mut tree, "win2");
    let root_id = tree.root.id();
    assert!(tree.root.find(root_id).is_some());
}

#[test]
fn test_find_mut_node_by_id() {
    let mut tree = new_tree();
    add(&mut tree, "win1");
    add(&mut tree, "win2");
    let pane_ids = tree.root.pane_ids();
    assert!(tree.root.find_mut(pane_ids[0]).is_some());
}

#[test]
fn test_cycle_tab() {
    let mut tree = new_tree();
    add(&mut tree, "win1");
    let pane_id = tree.focused_pane.unwrap();

    let w2 = test_window(&mut tree.ids, "win2");
    tree.root.stack_window(pane_id, w2);
    let w3 = test_window(&mut tree.ids, "win3");
    tree.root.stack_window(pane_id, w3);

    if let Some(Node::Pane { active, .. }) = tree.root.find(pane_id) {
        assert_eq!(*active, 2);
    }

    assert_eq!(tree.cycle_tab(pane_id, true), Some(0));
    assert_eq!(tree.cycle_tab(pane_id, true), Some(1));
    assert_eq!(tree.cycle_tab(pane_id, false), Some(0));
    assert_eq!(tree.cycle_tab(pane_id, false), Some(2));
}

#[test]
fn test_cycle_tab_single_window() {
    let mut tree = new_tree();
    add(&mut tree, "win1");
    let pane_id = tree.focused_pane.unwrap();
    assert_eq!(tree.cycle_tab(pane_id, true), None);
    assert_eq!(tree.cycle_tab(pane_id, false), None);
}

#[test]
fn test_cycle_tab_nonexistent_pane() {
    let mut tree = new_tree();
    let fake = NodeId::next(&mut tree.ids);
    assert!(tree.cycle_tab(fake, true).is_none());
}

#[test]
fn new_tree_is_one_empty_pane() {
    let tree = new_tree();
    assert_eq!(tree.root.pane_count(), 1);
    assert_eq!(tree.root.window_count(), 0);
    assert!(tree.focused_pane.is_none());
    assert_eq!(tree.root.id(), NodeId(1));
}

#[test]
fn add_window_focuses_receiving_pane() {
    let mut tree = new_tree();
    let w1 = test_window(&mut tree.ids, "w1");
    let p1 = tree.add_window(w1);
    assert_eq!(tree.focused_pane, Some(p1));
    assert_eq!(p1, NodeId(1));
    let w2 = test_window(&mut tree.ids, "w2");
    let p2 = tree.add_window(w2);
    // The split takes identifiers 2 (first), 3 (second) and 4 (the split).
    assert_eq!(p2, NodeId(3));
    assert_eq!(tree.focused_pane, Some(p2));
    assert_eq!(tree.root.first_split_id(), Some(NodeId(4)));
    assert_eq!(titles(&tree.root, p2), vec!["w2".to_string()]);
    assert_eq!(titles(&tree.root, NodeId(2)), vec!["w1".to_string()]);
}

#[test]
fn split_ratio_set_and_read_back() {
    let mut tree = new_tree();
    add(&mut tree, "a");
    add(&mut tree, "b");
    let split = tree.root.first_split_id().unwrap();
    assert_eq!(tree.root.split_ratio(split), Some(0.5));
    assert!(tree.root.set_split_ratio(split, 0.25));
    assert_eq!(tree.root.split_ratio(split), Some(0.25));
    let pane = tree.root.pane_ids()[0];
    assert_eq!(tree.root.split_ratio(pane), None);
    assert!(!tree.root.set_split_ratio(pane, 0.9));
}

#[test]
fn active_window_follows_cycling() {
    let mut tree = new_tree();
    add(&mut tree, "one");
    let pane = tree.focused_pane.unwrap();
    let w = test_window(&mut tree.ids, "two");
    tree.root.stack_window(pane, w);
    assert_eq!(tree.root.active_window(pane).unwrap().title, "two");
    tree.cycle_tab(pane, true);
    assert_eq!(tree.root.active_window(pane).unwrap().title, "one");
}

#[test]
fn manage_window_skips_managed_process() {
    let mut tree = new_tree();
    let a = test_window_with_pid(&mut tree.ids, "a", 7);
    assert!(tree.manage_window(a).is_some());
    let again = test_window_with_pid(&mut tree.ids, "a2", 7);
    assert!(tree.manage_window(again).is_none());
    assert_eq!(tree.root.window_count(), 1);
    let b = test_window_with_pid(&mut tree.ids, "b", 8);
    assert!(tree.manage_window(b).is_some());
    assert_eq!(tree.root.window_count(), 2);
}

#[test]
fn swap_with_focused_swaps_only_different_panes() {
    let mut tree = new_tree();
    add(&mut tree, "left");
    add(&mut tree, "right");
    let ids = tree.root.pane_ids();
    tree.focused_pane = Some(ids[0]);
    assert!(!tree.swap_with_focused(None));
    assert!(!tree.swap_with_focused(Some(ids[0])));
    assert!(tree.swap_with_focused(Some(ids[1])));
    assert_eq!(titles(&tree.root, ids[0]), vec!["right".to_string()]);
    assert_eq!(titles(&tree.root, ids[1]), vec!["left".to_string()]);
}

#[test]
fn drop_into_pane_left_puts_window_first() {
    let mut tree = new_tree();
    let a = test_window_with_pid(&mut tree.ids, "a", 1);
    tree.add_window(a);
    let target = tree.root.pane_ids()[0];
    let dragged = test_window_with_pid(&mut tree.ids, "dragged", 2);
    let r = tree.drop_into_pane(target, Orientation::Horizontal, false, dragged).unwrap();
    let ids = tree.root.pane_ids();
    assert_eq!(ids.len(), 2);
    assert_eq!(r, ids[0]);
    assert_eq!(tree.focused_pane, Some(r));
    assert_eq!(titles(&tree.root, ids[0]), vec!["dragged".to_string()]);
    assert_eq!(titles(&tree.root, ids[1]), vec!["a".to_string()]);
}

#[test]
fn drop_into_pane_bottom_puts_window_second() {
    let mut tree = new_tree();
    let a = test_window_with_pid(&mut tree.ids, "a", 1);
    tree.add_window(a);
    let target = tree.root.pane_ids()[0];
    let dragged = test_window_with_pid(&mut tree.ids, "dragged", 2);
    let r = tree.drop_into_pane(target, Orientation::Vertical, true, dragged).unwrap();
    let ids = tree.root.pane_ids();
    assert_eq!(r, ids[1]);
    assert_eq!(titles(&tree.root, ids[0]), vec!["a".to_string()]);
    assert_eq!(titles(&tree.root, ids[1]), vec!["dragged".to_string()]);
    if let Node::Split { orientation, .. } = &tree.root {
        assert_eq!(*orientation, Orientation::Vertical);
    } else {
        panic!("Expected split node");
    }
}

#[test]
fn drop_into_pane_moves_managed_window() {
    let mut tree = new_tree();
    let a = test_window_with_pid(&mut tree.ids, "a", 1);
    tree.add_window(a);
    let b = test_window_with_pid(&mut tree.ids, "b", 2);
    tree.add_window(b);
    assert_eq!(tree.root.window_count(), 2);
    let target = tree.root.find_pane_by_pid(1).unwrap();
    // The window of process 2 is dragged onto the right of process 1's pane.
    let again = test_window_with_pid(&mut tree.ids, "b again", 2);
    let r = tree.drop_into_pane(target, Orientation::Horizontal, true, again).unwrap();
    assert_eq!(tree.root.window_count(), 2);
    assert_eq!(tree.root.pane_count(), 2);
    assert_eq!(titles(&tree.root, r), vec!["b again".to_string()]);
}

#[test]
fn drop_into_missing_pane_splits_nothing() {
    let mut tree = new_tree();
    add(&mut tree, "a");
    let missing = NodeId(999);
    let w = test_window_with_pid(&mut tree.ids, "w", 5);
    assert!(tree.drop_into_pane(missing, Orientation::Horizontal, true, w).is_none());
    assert_eq!(tree.root.pane_count(), 1);
    assert_eq!(tree.root.window_count(), 1);
}

#[test]
fn cleanup_twice_changes_nothing_more() {
    let mut ids = IdSource::new();
    let mut node: Node<f32, Frame> = Node::new_pane(&mut ids);
    let pane_id = node.id();
    let (first, second) = node.split_pane(pane_id, Orientation::Horizontal, 0.5, &mut ids).unwrap();
    let (_a, b) = node.split_pane(second, Orientation::Vertical, 0.5, &mut ids).unwrap();
    let w = test_window(&mut ids, "kept");
    node.stack_window(b, w);
    assert_eq!(node.pane_count(), 3);
    node.cleanup();
    assert_eq!(node.pane_count(), 1);
    assert_eq!(node.pane_ids(), vec![b]);
    node.cleanup();
    assert_eq!(node.pane_ids(), vec![b]);
    assert_eq!(node.window_count(), 1);
    assert!(node.find(first).is_none());
}

#[test]
fn removing_last_window_leaves_one_empty_pane() {
    let mut tree = new_tree();
    let w = test_window(&mut tree.ids, "only");
    let id = w.id;
    tree.add_window(w);
    let removed = tree.remove_window(id).unwrap();
    assert_eq!(removed.title, "only");
    assert_eq!(tree.root.pane_count(), 1);
    assert_eq!(tree.root.window_count(), 0);
    assert!(tree.root.is_empty_pane());
}

#[test]
fn test_add_windows_creates_splits() {
    let mut tree = new_tree();

    add(&mut tree, "win1");
    assert_eq!(tree.root.pane_count(), 1);
    assert_eq!(tree.root.window_count(), 1);

    add(&mut tree, "win2");
    assert_eq!(tree.root.pane_count(), 2);
    assert_eq!(tree.root.window_count(), 2);
}

#[test]
fn test_default_tree_is_empty_pane() {
    let tree = new_tree();
    assert_eq!(tree.root.pane_count(), 1);
    assert_eq!(tree.root.window_count(), 0);
    assert!(tree.focused_pane.is_none());
}

#[test]
fn move_window_to_moves_the_active_window_and_focuses_target() {
    let mut tree = new_tree();
    let wa = test_window_with_pid(&mut tree.ids, "a", 1);
    let a_id = wa.id;
    tree.add_window(wa);
    let wb = test_window_with_pid(&mut tree.ids, "b", 2);
    let b_id = wb.id;
    tree.add_window(wb);
    let wc = test_window_with_pid(&mut tree.ids, "c", 3);
    let c_id = wc.id;
    tree.add_window(wc);
    assert_eq!(tree.root.pane_count(), 3);
    let pa = tree.root.find_pane_with_window(a_id).unwrap();
    let pb = tree.root.find_pane_with_window(b_id).unwrap();
    let pc = tree.root.find_pane_with_window(c_id).unwrap();
    tree.focused_pane = Some(pa);

    assert_eq!(tree.move_window_to(pb), Some(pb));
    assert_eq!(tree.focused_pane, Some(pb));
    assert_eq!(tree.root.find_pane_with_window(a_id), Some(pb));
    assert_eq!(tree.root.find_pane_with_window(b_id), Some(pb));
    assert_eq!(tree.root.find_pane_with_window(c_id), Some(pc));
    // The source pane was left empty and is gone.
    assert_eq!(tree.root.pane_count(), 2);
    assert_eq!(tree.root.window_count(), 3);
    assert!(tree.root.find(pa).is_none());
    // The moved window is the last and active tab of the target.
    assert_eq!(titles(&tree.root, pb), vec!["b".to_string(), "a".to_string()]);
    assert_eq!(tree.root.active_window(pb).map(|w| w.id), Some(a_id));
}

#[test]
fn move_window_to_keeps_a_source_with_tabs_left() {
    let mut tree = new_tree();
    let w1 = test_window_with_pid(&mut tree.ids, "one", 1);
    let one = w1.id;
    tree.add_window(w1);
    let w2 = test_window_with_pid(&mut tree.ids, "two", 2);
    let p2 = tree.add_window(w2);
    let p1 = tree.root.find_pane_with_window(one).unwrap();
    let w3 = test_window_with_pid(&mut tree.ids, "three", 3);
    let three = w3.id;
    assert!(tree.root.stack_window(p2, w3));
    tree.focused_pane = Some(p2);
    // Pane p2 holds "two" and "three", with "three" active.
    assert_eq!(tree.move_window_to(p1), Some(p1));
    assert_eq!(tree.focused_pane, Some(p1));
    assert_eq!(tree.root.find_pane_with_window(three), Some(p1));
    assert_eq!(titles(&tree.root, p2), vec!["two".to_string()]);
    assert_eq!(titles(&tree.root, p1), vec!["one".to_string(), "three".to_string()]);
    assert_eq!(tree.root.pane_count(), 2);
}

#[test]
fn move_window_to_refuses_without_a_move() {
    let mut tree = new_tree();
    // Nothing focused.
    assert_eq!(tree.move_window_to(NodeId(1)), None);

    let w1 = test_window_with_pid(&mut tree.ids, "one", 1);
    let one = w1.id;
    tree.add_window(w1);
    let w2 = test_window_with_pid(&mut tree.ids, "two", 2);
    let p2 = tree.add_window(w2);
    let p1 = tree.root.find_pane_with_window(one).unwrap();
    // Target is the focused pane itself.
    assert_eq!(tree.move_window_to(p2), None);
    // Target names no pane.
    assert_eq!(tree.move_window_to(NodeId(99)), None);
    assert_eq!(tree.focused_pane, Some(p2));
    assert_eq!(titles(&tree.root, p1), vec!["one".to_string()]);
    assert_eq!(titles(&tree.root, p2), vec!["two".to_string()]);
    assert_eq!(tree.root.pane_count(), 2);
}
