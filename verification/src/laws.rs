//! Properties that relate several operations of the library.

use vstd::prelude::*;
use crate::actions::{
    after_restore, first_entry, kind_of, remembered, remembers, restored, ActionKind, SizeCycle, TilingMode,
};
use crate::config::{
    action_named, bound_actions, default_binding_table, lemma_name_precedes_irreflexive, name_precedes,
    stored_in_name_order, group_of, group_order, lemma_names_distinct, name_of,
    key_label, rows_by_group, rows_in_group, KeyBinding,
};
use crate::hotkeys::{dispatch, hotkey_id_for, rectangle_bindings, table_of, EventHotKeyID, TILE_SIGNATURE};
use crate::ids::{bump, NodeId, WindowId};
use crate::layout::{edge_zone_of, pane_zone_of, split_plan_of, zone_of, EdgeProximity, PaneOffset, SnapZone};
use crate::tiling::TileTree;
use crate::tree::{
    drop_split_view, first_tab, holds_window, is_first_tab, lemma_first_pane, lemma_leaves_nonempty,
    lemma_replace_leaf_leaves, nonempty_panes, split_pane_view, split_pane_view_with, PaneQuery, PaneView, TreeView,
};
use crate::tree_lemmas::{
    lemma_cleaned, lemma_find_id, lemma_leaf_contained, lemma_replace_leaf_nested,
    lemma_replace_leaf_pane, lemma_replace_leaf_self, lemma_replace_leaf_twice,
    lemma_replace_leaf_windows, lemma_replace_node_commute, lemma_replace_node_find,
    lemma_replace_node_find_other, lemma_replace_node_leaf, lemma_replace_node_self,
    lemma_replace_node_twice, lemma_replace_same_id, lemma_split_ids, lemma_split_then_stack,
    lemma_unique_find, lemma_cleaned_leaves, lemma_move_shape, lemma_nonempty_members,
};
use crate::types::{spec_cycle_group, Direction, ManagedWindow, Orientation, TileAction};
use crate::keycodes::{CMD_KEY, CONTROL_KEY, OPTION_KEY, SHIFT_KEY};

verus! {

/// Reading an action's name back gives the action.
pub proof fn law_action_name_roundtrip(a: TileAction)
    ensures
        action_named(name_of(a)) == Some(a),
{
    let c = choose|b: TileAction| name_of(b) == name_of(a);
    lemma_names_distinct(c, a);
}

/// The settings' default binding list and the hotkeys' default bindings
/// agree entry by entry: same action (by name), key code and modifiers.
pub proof fn law_default_bindings_agree()
    ensures
        default_binding_table().len() == rectangle_bindings().len(),
        forall|i: int|
            0 <= i < rectangle_bindings().len() ==> {
                let (name, keycode, modifiers) = #[trigger] default_binding_table()[i];
                let (k, m, a) = rectangle_bindings()[i];
                name == name_of(a) && keycode == k && modifiers == m
            },
{
    assert(default_binding_table().len() == 27);
    assert(rectangle_bindings().len() == 27);
}

/// Swapping the windows of two panes twice leaves the tree as it was.
pub proof fn law_swap_twice<R, F>(t: TreeView<R, F>, a: NodeId, b: NodeId)
    ensures
        t.swapped_panes(a, b).swapped_panes(a, b) == t,
{
    match (t.find(a), t.find(b)) {
        (Some(TreeView::Pane(pa)), Some(TreeView::Pane(pb))) => {
            lemma_find_id(t, a);
            lemma_find_id(t, b);
            let na = pa.with_tabs(pb.tabs);
            let nb = pb.with_tabs(pa.tabs);
            let t0 = t.replace_node(a, TreeView::Pane(na));
            let t1 = t0.replace_node(b, TreeView::Pane(nb));
            if a == b {
                // Swapping a pane with itself changes nothing.
                assert(na == pa && nb == pa);
                lemma_replace_node_self(t, a);
            } else {
                // In the swapped tree, the panes are found with exchanged windows.
                lemma_replace_node_find(t, a, TreeView::Pane(na));
                lemma_replace_node_find_other(t, a, na, b);
                lemma_replace_node_find(t0, b, TreeView::Pane(nb));
                lemma_replace_node_find_other(t0, b, nb, a);
                assert(t1.find(a) == Some(TreeView::<R, F>::Pane(na)));
                assert(t1.find(b) == Some(TreeView::<R, F>::Pane(nb)));
                assert(na.with_tabs(nb.tabs) == pa);
                assert(nb.with_tabs(na.tabs) == pb);
                // t1 = t[a := na][b := nb] = t[b := nb][a := na]
                lemma_replace_node_commute(t, a, na, b, nb);
                let u = t.replace_node(b, TreeView::Pane(nb));
                lemma_replace_node_find(t, b, TreeView::Pane(nb));
                lemma_replace_node_find_other(t, b, nb, a);
                // t1[a := pa] = t[b := nb][a := pa]
                lemma_replace_node_twice(u, a, TreeView::Pane(na), TreeView::Pane(pa));
                let v = u.replace_node(a, TreeView::Pane(pa));
                // v = t[a := pa][b := nb]
                lemma_replace_node_commute(t, b, nb, a, pa);
                let w = t.replace_node(a, TreeView::Pane(pa));
                lemma_replace_node_self(t, a);
                assert(w == t);
                lemma_replace_node_twice(t, b, TreeView::Pane(nb), TreeView::Pane(pb));
                lemma_replace_node_self(t, b);
            }
        },
        _ => {},
    }
}

/// Rotating the tree twice leaves it as it was; rotating keeps the panes.
pub proof fn law_rotate_twice<R, F>(t: TreeView<R, F>)
    ensures
        t.rotated().rotated() == t,
        t.rotated().leaves() == t.leaves(),
    decreases t,
{
    if let TreeView::Split { orientation, first, second, .. } = t {
        law_rotate_twice(*first);
        law_rotate_twice(*second);
        assert(orientation.spec_toggle().spec_toggle() == orientation);
    }
}

/// Equalizing sets the ratio of every split and nothing else: the panes
/// stay, every split reads the even ratio, and equalizing again changes
/// nothing.
pub proof fn law_equalize<R, F>(t: TreeView<R, F>, r: R, x: NodeId)
    ensures
        t.equalized(r).equalized(r) == t.equalized(r),
        t.equalized(r).leaves() == t.leaves(),
        t.equalized(r).split_ratio(x) == if t.split_ratio(x) is Some {
            Some(r)
        } else {
            None
        },
    decreases t,
{
    if let TreeView::Split { first, second, .. } = t {
        law_equalize(*first, r, x);
        law_equalize(*second, r, x);
    }
}

/// Setting the ratio of a split and reading it back gives the ratio set;
/// the panes stay.
pub proof fn law_split_ratio_set_get<R, F>(t: TreeView<R, F>, x: NodeId, r: R)
    ensures
        t.with_split_ratio(x, r).split_ratio(x) == if t.split_ratio(x) is Some {
            Some(r)
        } else {
            None
        },
        t.with_split_ratio(x, r).leaves() == t.leaves(),
    decreases t,
{
    if let TreeView::Split { first, second, id, .. } = t {
        if id != x {
            law_split_ratio_set_get(*first, x, r);
            law_split_ratio_set_get(*second, x, r);
        }
    }
}

/// Toggling the zoom of a pane twice leaves the tree as it was.
pub proof fn law_zoom_twice<R, F>(t: TreeView<R, F>, p: NodeId)
    ensures
        t.zoom_toggled(p).zoom_toggled(p) == t,
{
    lemma_first_pane(t.leaves(), PaneQuery::Id(p));
    if let Some(i) = t.first(PaneQuery::Id(p)) {
        let l = t.leaves();
        let z = l[i].toggled();
        lemma_replace_leaf_pane(t, i, z);
        let t1 = t.replace_leaf(i, TreeView::Pane(z));
        assert(t1.first(PaneQuery::Id(p)) == Some(i));
        assert(t1.leaves()[i] == z);
        assert(z.toggled() == l[i]);
        lemma_replace_leaf_twice(t, i, z, TreeView::Pane(l[i]));
        lemma_replace_leaf_self(t, i);
    }
}

/// Making the next tab active and then the previous one leaves the tree
/// as it was, and so does the reverse, when the pane's active index is one
/// of its tabs.
pub proof fn law_cycle_tab_back_and_forth<R, F>(t: TreeView<R, F>, x: NodeId, forward: bool)
    requires
        t.find(x) matches Some(TreeView::Pane(p)) ==> p.active < p.tabs.len() <= usize::MAX,
    ensures
        t.tab_cycled(x, forward).tab_cycled(x, !forward) == t,
{
    if let Some(TreeView::Pane(p)) = t.find(x) {
        if p.tabs.len() >= 2 {
            lemma_find_id(t, x);
            let p1 = p.with_active(p.cycled(forward));
            lemma_replace_node_find(t, x, TreeView::Pane(p1));
            let p2 = p1.with_active(p1.cycled(!forward));
            let a = p.active as int;
            let n = p.tabs.len() as int;
            assert((a + 1) % n == if a + 1 < n { a + 1 } else { 0 }) by (nonlinear_arith)
                requires
                    0 <= a < n,
                    n >= 2,
            ;
            assert(a % n == a) by (nonlinear_arith)
                requires
                    0 <= a < n,
            ;
            assert(n % n == 0) by (nonlinear_arith)
                requires
                    n >= 2,
            ;
            assert(p2 == p);
            lemma_replace_node_twice(t, x, TreeView::Pane(p1), TreeView::Pane(p2));
            lemma_replace_node_self(t, x);
        }
    }
}

/// Pressing a shortcut of a cycle group repeatedly, each press within a
/// second of the one before, cycles through the sizes of the group in order
/// and comes back to the first: after a press that starts the group over,
/// the next presses select the second, third and first size.
pub proof fn law_size_cycle(s: SizeCycle, a: TileAction, t0: u64, t1: u64, t2: u64, t3: u64)
    requires
        s.wf(),
        spec_cycle_group(a) is Some,
        !s.repeats(a, t0),
        t0 <= t1 < t0 + 1000,
        t1 <= t2 < t1 + 1000,
        t2 <= t3 < t2 + 1000,
    ensures
        ({
            let g = spec_cycle_group(a)->0;
            let s1 = s.after(a, t0);
            let s2 = s1.after(a, t1);
            let s3 = s2.after(a, t2);
            &&& s.target(a, t0) == g[0]
            &&& s1.target(a, t1) == g[1]
            &&& s2.target(a, t2) == g[2]
            &&& s3.target(a, t3) == g[0]
        }),
{
    let g = spec_cycle_group(a)->0;
    assert(g.len() == 3);
}

/// Restoring a window gives back the frame it had when it was first
/// remembered: later frames of the same process do not replace it, and
/// restoring forgets it.
pub proof fn law_restore_first_frame<F>(entries: Seq<(i32, F)>, pid: i32, first: F, later: F)
    requires
        !remembers(entries, pid),
    ensures
        ({
            let e = remembered(remembered(entries, pid, first), pid, later);
            &&& restored(e, pid) == Some(first)
            &&& !remembers(after_restore(e, pid), pid)
        }),
{
    let e1 = entries.push((pid, first));
    assert(e1[entries.len() as int].0 == pid);
    assert(remembers(e1, pid));
    let i = first_entry(e1, pid);
    assert(0 <= i < e1.len() && e1[i].0 == pid && forall|j: int| 0 <= j < i ==> (#[trigger] e1[j]).0 != pid) by {
        assert(0 <= entries.len() < e1.len() && e1[entries.len() as int].0 == pid && forall|j: int|
            0 <= j < entries.len() ==> (#[trigger] e1[j]).0 != pid) by {
            assert forall|j: int| 0 <= j < entries.len() implies (#[trigger] e1[j]).0 != pid by {
                assert(e1[j] == entries[j]);
            }
        }
    }
    if i < entries.len() {
        assert(e1[i] == entries[i]);
    }
    assert(i == entries.len());
    let e2 = e1.remove(i);
    assert(e2 =~= entries);
}

/// Each registered hotkey, when pressed, selects the action of its
/// binding; a hotkey with another signature selects nothing.
pub proof fn law_hotkey_dispatch(bindings: Seq<(u32, u32, TileAction)>, i: int, other: EventHotKeyID)
    requires
        bindings.len() <= u32::MAX,
        0 <= i < bindings.len(),
        other.signature != TILE_SIGNATURE,
    ensures
        dispatch(table_of(bindings), hotkey_id_for(i)) == Some(bindings[i].2),
        dispatch(table_of(bindings), other) is None,
{
    assert(table_of(bindings).contains_key(i as u32));
}

/// A managed pane under the cursor that selects a zone takes priority over
/// the screen's edges.
pub proof fn law_pane_zone_priority(hits: Seq<(NodeId, PaneOffset)>, e1: EdgeProximity, e2: EdgeProximity, i: int)
    requires
        0 <= i < hits.len(),
        pane_zone_of(hits[i].0, hits[i].1) is Some,
    ensures
        zone_of(hits, e1) == zone_of(hits, e2),
        zone_of(hits, e1) is Some,
    decreases hits.len(),
{
    if pane_zone_of(hits[0].0, hits[0].1) is None {
        assert(hits.drop_first()[i - 1] == hits[i]);
        law_pane_zone_priority(hits.drop_first(), e1, e2, i - 1);
    }
}

/// Stacking `w` onto pane `k`, the first pane with its identifier, adds
/// one window and leaves `w` as the active last tab of that pane.
proof fn lemma_stack_onto<R, F>(t: TreeView<R, F>, k: int, w: ManagedWindow<F>)
    requires
        0 <= k < t.leaves().len(),
        t.first(PaneQuery::Id(t.leaves()[k].id)) == Some(k),
    ensures
        ({
            let pw = t.leaves()[k].with_tab(w);
            let t2 = t.replace_leaf(k, TreeView::Pane(pw));
            &&& t2.windows().len() == t.windows().len() + 1
            &&& t2.windows().contains(w)
            &&& t2.first(PaneQuery::Id(t.leaves()[k].id)) == Some(k)
            &&& t2.leaves()[k] == pw
        }),
{
    let pw = t.leaves()[k].with_tab(w);
    lemma_replace_leaf_windows(t, k, TreeView::Pane(pw));
    lemma_replace_leaf_pane(t, k, pw);
    assert(pw.tabs[pw.tabs.len() - 1] == w);
    assert(TreeView::<R, F>::Pane(pw).windows().contains(w));
}

/// Splitting pane `k` and placing `w` alone in the new second pane `b`
/// adds one window and leaves `w` as the active tab of `b`.
proof fn lemma_split_onto<R, F>(t: TreeView<R, F>, k: int, n: u64, r: R, w: ManagedWindow<F>)
    requires
        t.unique_ids(),
        t.ids_below(n),
        n < u64::MAX - 2,
        0 <= k < t.leaves().len(),
    ensures
        ({
            let b = NodeId(bump(n));
            let t2 = t.replace_leaf(
                k,
                split_pane_view_with(t.leaves()[k], Orientation::Horizontal, r, NodeId(n), b, NodeId(bump(bump(n))), w),
            );
            &&& t2.windows().len() == t.windows().len() + 1
            &&& t2.windows().contains(w)
            &&& t2.first(PaneQuery::Id(b)) matches Some(j) && t2.leaves()[j].tabs.last() == w
                && t2.leaves()[j].active == t2.leaves()[j].tabs.len() - 1
        }),
{
    let a = NodeId(n);
    let b = NodeId(bump(n));
    let s = NodeId(bump(bump(n)));
    let p = t.leaves()[k];
    let o = Orientation::Horizontal;
    lemma_split_then_stack(t, k, n, o, r, w);
    let sub2 = split_pane_view_with(p, o, r, a, b, s, w);
    lemma_replace_leaf_windows(t, k, sub2);
    let pa = PaneView::<F> { id: a, tabs: p.tabs, active: 0, zoomed: p.zoomed };
    let pb = PaneView::<F> { id: b, tabs: seq![], active: 0, zoomed: false };
    assert(TreeView::<R, F>::Pane(pa).windows() == p.tabs);
    assert(TreeView::<R, F>::Pane(PaneView { id: b, tabs: seq![w], active: 0, zoomed: false }).windows()
        == seq![w]);
    assert(sub2.windows() =~= p.tabs + seq![w]);
    assert(sub2.windows()[p.tabs.len() as int] == w);
    let t1 = t.replace_leaf(k, split_pane_view(p, o, r, a, b, s));
    lemma_first_pane(t1.leaves(), PaneQuery::Id(b));
    lemma_replace_leaf_pane(t1, k + 1, pb.with_tab(w));
    assert(pb.with_tab(w).tabs =~= seq![w]);
}

/// Adding a window adds exactly one window to the tree; the pane that
/// receives it is focused and shows it as its active, last tab.
pub proof fn law_add_window<R: Copy, F, G>(
    before: TileTree<R, F, G>,
    window: ManagedWindow<F>,
    after: TileTree<R, F, G>,
    r: NodeId,
)
    requires
        before.wf(),
        before.ids.next_node() < u64::MAX - 2,
        before.added(window, &after, r),
    ensures
        after.root@.windows().len() == before.root@.windows().len() + 1,
        after.root@.windows().contains(window),
        after.focused_pane == Some(r),
        after.root@.first(PaneQuery::Id(r)) matches Some(j) && after.root@.leaves()[j].tabs.last()
            == window && after.root@.leaves()[j].active == after.root@.leaves()[j].tabs.len() - 1,
{
    let t = before.root@;
    let l = t.leaves();
    let n = before.ids.next_node();
    lemma_leaves_nonempty(t);
    match before.focused_index() {
        Some(k) => {
            let p = before.focused_pane->0;
            lemma_first_pane(l, PaneQuery::Id(p));
            if l[k].tabs.len() == 0 {
                lemma_stack_onto(t, k, window);
            } else {
                lemma_split_onto(t, k, n, before.even_ratio, window);
            }
        },
        None => {
            lemma_first_pane(l, PaneQuery::Empty);
            match t.first(PaneQuery::Empty) {
                Some(j) => {
                    lemma_unique_find(t, j);
                    lemma_stack_onto(t, j, window);
                },
                None => {
                    lemma_split_onto(t, 0, n, before.even_ratio, window);
                },
            }
        },
    }
}

/// Removing a window that the tree holds takes exactly that one window
/// out; afterwards the tree is a single pane or has no empty pane.
pub proof fn law_remove_window<R, F>(t: TreeView<R, F>, w: WindowId)
    requires
        t.first(PaneQuery::Window(w)) is Some,
    ensures
        t.without_window(w).cleaned().windows().len() + 1 == t.windows().len(),
        t.without_window(w).cleaned() is Pane || forall|k: int|
            0 <= k < t.without_window(w).cleaned().leaves().len()
                ==> (#[trigger] t.without_window(w).cleaned().leaves()[k]).tabs.len() > 0,
{
    let i = t.first(PaneQuery::Window(w))->0;
    lemma_first_pane(t.leaves(), PaneQuery::Window(w));
    let p = t.leaves()[i];
    let k = first_tab(p.tabs, w);
    assert(holds_window(p.tabs, w));
    let kk = choose|kk: int| 0 <= kk < p.tabs.len() && (#[trigger] p.tabs[kk]).id == w;
    let j = lemma_first_holding(p.tabs, w, kk);
    assert(is_first_tab(p.tabs, w, j));
    lemma_replace_leaf_windows(t, i, TreeView::Pane(p.without_tab(k)));
    lemma_cleaned(t.without_window(w));
}

/// The first position of `tabs` holding window `w`, given that position
/// `k` holds it.
proof fn lemma_first_holding<F>(tabs: Seq<ManagedWindow<F>>, w: WindowId, k: int) -> (j: int)
    requires
        0 <= k < tabs.len(),
        tabs[k].id == w,
    ensures
        is_first_tab(tabs, w, j),
    decreases k,
{
    if exists|m: int| 0 <= m < k && (#[trigger] tabs[m]).id == w {
        let m = choose|m: int| 0 <= m < k && (#[trigger] tabs[m]).id == w;
        lemma_first_holding(tabs, w, m)
    } else {
        k
    }
}

/// Dropping a window on a side of a pane (after its process left the tree)
/// replaces that pane by a split holding the window alone in the slot on
/// the side of the drop and the pane's windows in the other slot.
pub proof fn law_drop_into_pane<R, F>(
    t: TreeView<R, F>,
    pane: NodeId,
    pv: PaneView<F>,
    o: Orientation,
    r: R,
    n: u64,
    into_second: bool,
    w: ManagedWindow<F>,
)
    requires
        t.unique_ids(),
        t.ids_below(n),
        n < u64::MAX - 2,
        t.find(pane) == Some(TreeView::<R, F>::Pane(pv)),
    ensures
        ({
            let a = NodeId(n);
            let b = NodeId(bump(n));
            let s = NodeId(bump(bump(n)));
            t.split_at(pane, o, r, a, b, s) matches Some(t2) && ({
                let t3 = if into_second { t2 } else { t2.swapped_panes(a, b) };
                let target = if into_second { b } else { a };
                t3.stacked(target, w) == t.replace_leaf(
                    t.first(PaneQuery::Id(pane))->0,
                    drop_split_view(pv, o, r, a, b, s, w, into_second),
                )
            })
        }),
{
    let a = NodeId(n);
    let b = NodeId(bump(n));
    let s = NodeId(bump(bump(n)));
    lemma_split_ids(t, pane, pv, o, r, n);
    let k = t.first(PaneQuery::Id(pane))->0;
    let sub = split_pane_view::<R, F>(pv, o, r, a, b, s);
    let t2 = t.replace_leaf(k, sub);
    let pa = PaneView::<F> { id: a, tabs: pv.tabs, active: 0, zoomed: pv.zoomed };
    let pb = PaneView::<F> { id: b, tabs: seq![], active: 0, zoomed: false };
    lemma_split_then_stack(t, k, n, o, r, w);
    if into_second {
        assert(pb.with_tab(w).tabs =~= seq![w]);
        assert(split_pane_view_with(pv, o, r, a, b, s, w) == drop_split_view(pv, o, r, a, b, s, w, true));
    } else {
        // The panes of the split sit at positions k and k + 1.
        lemma_replace_leaf_leaves(t, k, sub);
        assert(TreeView::<R, F>::Pane(pa).leaves() == seq![pa]);
        assert(TreeView::<R, F>::Pane(pb).leaves() == seq![pb]);
        assert(sub.leaves() =~= seq![pa, pb]);
        assert(t2.leaves()[k] == pa);
        assert(t2.leaves()[k + 1] == pb);
        lemma_unique_find(t2, k);
        lemma_unique_find(t2, k + 1);
        // Swapping moves the windows of the pane to the second slot.
        let na = pa.with_tabs(pb.tabs);
        let nb = pb.with_tabs(pa.tabs);
        lemma_replace_node_leaf(t2, k, na);
        let u = t2.replace_leaf(k, TreeView::Pane(na));
        lemma_replace_same_id(t2, k, na);
        lemma_replace_leaf_pane(t2, k, na);
        lemma_replace_node_leaf(u, k + 1, nb);
        let v = u.replace_leaf(k + 1, TreeView::Pane(nb));
        assert(t2.swapped_panes(a, b) == v);
        lemma_replace_leaf_pane(u, k + 1, nb);
        assert(v.first(PaneQuery::Id(a)) == Some(k));
        assert(v.leaves()[k] == na);
        let nw = na.with_tab(w);
        // Collapse the three replacements into one replacement of pane k.
        lemma_replace_leaf_nested(t, k, sub, 0, TreeView::Pane(na));
        let sub1 = sub.replace_leaf(0, TreeView::Pane(na));
        lemma_replace_leaf_leaves(sub, 0, TreeView::Pane(na));
        assert(TreeView::<R, F>::Pane(na).leaves() == seq![na]);
        lemma_replace_leaf_nested(t, k, sub1, 1, TreeView::Pane(nb));
        let sub2 = sub1.replace_leaf(1, TreeView::Pane(nb));
        lemma_replace_leaf_leaves(sub1, 1, TreeView::Pane(nb));
        assert(TreeView::<R, F>::Pane(nb).leaves() == seq![nb]);
        lemma_replace_leaf_nested(t, k, sub2, 0, TreeView::Pane(nw));
        let sub3 = sub2.replace_leaf(0, TreeView::Pane(nw));
        let pane_na = TreeView::<R, F>::Pane(na);
        let pane_nb = TreeView::<R, F>::Pane(nb);
        assert(sub == TreeView::Split { orientation: o, ratio: r, first: Box::new(TreeView::<R, F>::Pane(pa)), second: Box::new(TreeView::<R, F>::Pane(pb)), id: s });
        assert(TreeView::<R, F>::Pane(pa).replace_leaf(0, pane_na) == pane_na);
        assert(TreeView::<R, F>::Pane(pb).replace_leaf(0, pane_nb) == pane_nb);
        assert(pane_na.replace_leaf(0, TreeView::<R, F>::Pane(nw)) == TreeView::<R, F>::Pane(nw));
        assert(sub1 == TreeView::Split { orientation: o, ratio: r, first: Box::new(pane_na), second: Box::new(TreeView::<R, F>::Pane(pb)), id: s });
        assert(sub2 == TreeView::Split { orientation: o, ratio: r, first: Box::new(pane_na), second: Box::new(pane_nb), id: s });
        assert(sub3 == TreeView::Split { orientation: o, ratio: r, first: Box::new(TreeView::<R, F>::Pane(nw)), second: Box::new(pane_nb), id: s });
        assert(nw.tabs =~= seq![w]);
        assert(sub3 == drop_split_view(pv, o, r, a, b, s, w, false));
    }
}

/// Splitting a pane keeps every window in order and adds one pane.
pub proof fn law_split_counts<R, F>(
    t: TreeView<R, F>,
    p: NodeId,
    o: Orientation,
    r: R,
    a: NodeId,
    b: NodeId,
    s: NodeId,
)
    ensures
        t.split_at(p, o, r, a, b, s) matches Some(t2) ==> t2.windows() == t.windows()
            && t2.leaves().len() == t.leaves().len() + 1,
    decreases t,
{
    if t.id() == p {
        if let TreeView::Pane(pv) = t {
            let pa = TreeView::<R, F>::Pane(PaneView { id: a, tabs: pv.tabs, active: 0, zoomed: pv.zoomed });
            let pb = TreeView::<R, F>::Pane(PaneView { id: b, tabs: seq![], active: 0, zoomed: false });
            assert(pa.windows() == pv.tabs);
            assert(pb.windows() == Seq::<ManagedWindow<F>>::empty());
            assert(pa.leaves().len() == 1 && pb.leaves().len() == 1);
            let t2 = split_pane_view::<R, F>(pv, o, r, a, b, s);
            assert(t2.windows() =~= t.windows());
        }
    } else if let TreeView::Split { orientation, ratio, first, second, id } = t {
        law_split_counts(*first, p, o, r, a, b, s);
        law_split_counts(*second, p, o, r, a, b, s);
        match first.split_at(p, o, r, a, b, s) {
            Some(f2) => {
                assert(t.split_at(p, o, r, a, b, s) == Some(TreeView::Split { orientation, ratio, first: Box::new(f2), second, id }));
            },
            None => {
                if let Some(g2) = second.split_at(p, o, r, a, b, s) {
                    assert(t.split_at(p, o, r, a, b, s) == Some(TreeView::Split { orientation, ratio, first, second: Box::new(g2), id }));
                }
            },
        }
    }
}

/// With unique identifiers, no two panes share an identifier.
pub proof fn law_pane_ids_distinct<R, F>(t: TreeView<R, F>, i: int, j: int)
    requires
        t.unique_ids(),
        0 <= i < j < t.leaves().len(),
    ensures
        t.leaves()[i].id != t.leaves()[j].id,
    decreases t,
{
    if let TreeView::Split { first, second, .. } = t {
        let n = first.leaves().len() as int;
        if j < n {
            law_pane_ids_distinct(*first, i, j);
        } else if i >= n {
            law_pane_ids_distinct(*second, i - n, j - n);
        } else {
            lemma_leaf_contained(*first, i);
            lemma_leaf_contained(*second, j - n);
        }
    }
}

/// Cleaning up a tree that was cleaned up already changes nothing.
pub proof fn law_cleanup_idempotent<R, F>(t: TreeView<R, F>)
    ensures
        t.cleaned().cleaned() == t.cleaned(),
{
    lemma_cleaned(t);
    lemma_cleaned(t.cleaned());
}

/// How often `g` occurs in `gs`.
pub open spec fn occurrences(gs: Seq<Seq<char>>, g: Seq<char>) -> nat
    decreases gs.len(),
{
    if gs.len() == 0 {
        0
    } else {
        occurrences(gs.drop_last(), g) + if gs.last() == g {
            1nat
        } else {
            0nat
        }
    }
}

/// Every action name's section occurs exactly once in the section order.
proof fn lemma_section_listed_once(name: Seq<char>)
    ensures
        occurrences(group_order(), group_of(name)) == 1,
{
    reveal_strlit("Halves");
    reveal_strlit("Thirds");
    reveal_strlit("Two-Thirds");
    reveal_strlit("Quarters");
    reveal_strlit("Special");
    reveal_strlit("Move Focus");
    reveal_strlit("Swap Panes");
    let (g0, g1, g2, g3, g4, g5, g6) = (
        "Halves"@,
        "Thirds"@,
        "Two-Thirds"@,
        "Quarters"@,
        "Special"@,
        "Move Focus"@,
        "Swap Panes"@,
    );
    // The sections differ in their length or their first character.
    assert(g0.len() == 6 && g0[0] == 'H');
    assert(g1.len() == 6 && g1[0] == 'T');
    assert(g2.len() == 10 && g2[0] == 'T');
    assert(g3.len() == 8 && g3[0] == 'Q');
    assert(g4.len() == 7 && g4[0] == 'S');
    assert(g5.len() == 10 && g5[0] == 'M');
    assert(g6.len() == 10 && g6[0] == 'S');
    let gs = group_order();
    let e = Seq::<Seq<char>>::empty();
    assert(gs.drop_last() =~= seq![g0, g1, g2, g3, g4, g5]);
    assert(seq![g0, g1, g2, g3, g4, g5].drop_last() =~= seq![g0, g1, g2, g3, g4]);
    assert(seq![g0, g1, g2, g3, g4].drop_last() =~= seq![g0, g1, g2, g3]);
    assert(seq![g0, g1, g2, g3].drop_last() =~= seq![g0, g1, g2]);
    assert(seq![g0, g1, g2].drop_last() =~= seq![g0, g1]);
    assert(seq![g0, g1].drop_last() =~= seq![g0]);
    assert(seq![g0].drop_last() =~= e);
    reveal_with_fuel(occurrences, 8);
}

/// Adding one binding adds a row to each listed occurrence of its section.
proof fn lemma_rows_push(b: Seq<(String, KeyBinding)>, x: (String, KeyBinding), gs: Seq<Seq<char>>)
    ensures
        rows_by_group(b.push(x), gs).len() == rows_by_group(b, gs).len() + occurrences(gs, group_of(x.0@)),
    decreases gs.len(),
{
    if gs.len() > 0 {
        lemma_rows_push(b, x, gs.drop_last());
        assert(b.push(x).drop_last() =~= b);
        assert(b.push(x).last() == x);
        let g = gs.last();
        assert(rows_in_group(b.push(x), g).len() == rows_in_group(b, g).len() + if group_of(x.0@) == g {
            1nat
        } else {
            0nat
        });
    }
}

/// Without bindings, no section has rows.
proof fn lemma_rows_empty(gs: Seq<Seq<char>>)
    ensures
        rows_by_group(Seq::<(String, KeyBinding)>::empty(), gs).len() == 0,
    decreases gs.len(),
{
    if gs.len() > 0 {
        lemma_rows_empty(gs.drop_last());
    }
}

/// The keybindings list of the settings shows every binding exactly once:
/// each falls into exactly one of the listed sections.
pub proof fn law_settings_rows_cover_bindings(b: Seq<(String, KeyBinding)>)
    ensures
        rows_by_group(b, group_order()).len() == b.len(),
    decreases b.len(),
{
    if b.len() == 0 {
        assert(b =~= Seq::<(String, KeyBinding)>::empty());
        lemma_rows_empty(group_order());
    } else {
        let x = b.last();
        law_settings_rows_cover_bindings(b.drop_last());
        assert(b.drop_last().push(x) =~= b);
        lemma_rows_push(b.drop_last(), x, group_order());
        lemma_section_listed_once(x.0@);
    }
}

/// No two default bindings share a shortcut: the (key code, modifiers)
/// pairs of the settings' table, and so of the hotkeys' defaults, are
/// pairwise distinct.
#[verifier::rlimit(100)]
pub proof fn law_default_shortcuts_distinct()
    ensures
        forall|i: int, j: int|
            0 <= i < j < default_binding_table().len() ==> (#[trigger] default_binding_table()[i]).1
                != (#[trigger] default_binding_table()[j]).1 || default_binding_table()[i].2
                != default_binding_table()[j].2,
        forall|i: int, j: int|
            0 <= i < j < rectangle_bindings().len() ==> (#[trigger] rectangle_bindings()[i]).0
                != (#[trigger] rectangle_bindings()[j]).0 || rectangle_bindings()[i].1
                != rectangle_bindings()[j].1,
{
    assert(CONTROL_KEY | OPTION_KEY == 0x1800u32) by (bit_vector);
    assert(CONTROL_KEY | OPTION_KEY | SHIFT_KEY == 0x1A00u32) by (bit_vector);
    assert(CONTROL_KEY | OPTION_KEY | CMD_KEY == 0x1900u32) by (bit_vector);
    let t = default_binding_table();
    assert(t.len() == 27);
    assert forall|i: int, j: int| 0 <= i < j < t.len() implies (#[trigger] t[i]).1 != (#[trigger] t[j]).1
        || t[i].2 != t[j].2 by {
        assert(i == 0 || i == 1 || i == 2 || i == 3 || i == 4 || i == 5 || i == 6 || i == 7 || i == 8 || i == 9 || i == 10 || i == 11 || i == 12 || i == 13 || i == 14 || i == 15 || i == 16 || i == 17 || i == 18 || i == 19 || i == 20 || i == 21 || i == 22 || i == 23 || i == 24 || i == 25 || i == 26);
        assert(j == 1 || j == 2 || j == 3 || j == 4 || j == 5 || j == 6 || j == 7 || j == 8 || j == 9 || j == 10 || j == 11 || j == 12 || j == 13 || j == 14 || j == 15 || j == 16 || j == 17 || j == 18 || j == 19 || j == 20 || j == 21 || j == 22 || j == 23 || j == 24 || j == 25 || j == 26);
    }
    law_default_bindings_agree();
    assert forall|i: int, j: int| 0 <= i < j < rectangle_bindings().len() implies (
    #[trigger] rectangle_bindings()[i]).0 != (#[trigger] rectangle_bindings()[j]).0
        || rectangle_bindings()[i].1 != rectangle_bindings()[j].1 by {
        let _ = t[i];
        let _ = t[j];
    }
}

/// Each action bound by the stored bindings was named by one of them.
proof fn lemma_bound_action_named(s: Seq<(String, KeyBinding)>)
    ensures
        forall|k: int|
            0 <= k < bound_actions(s).len() ==> exists|m: int|
                0 <= m < s.len() && name_of(#[trigger] bound_actions(s)[k].2) == s[m].0@,
    decreases s.len(),
{
    if s.len() > 0 {
        let t = s.drop_last();
        lemma_bound_action_named(t);
        assert forall|k: int| 0 <= k < bound_actions(s).len() implies exists|m: int|
            0 <= m < s.len() && name_of(#[trigger] bound_actions(s)[k].2) == s[m].0@ by {
            if k < bound_actions(t).len() {
                let m = choose|m: int| 0 <= m < t.len() && name_of(bound_actions(t)[k].2) == t[m].0@;
                assert(s[m] == t[m]);
            } else {
                assert(name_of(bound_actions(s)[k].2) == s[s.len() - 1].0@);
            }
        }
    }
}

/// Stored as the settings file keeps them, in name order, the bindings bind
/// no action twice.
pub proof fn law_stored_bindings_name_distinct_actions(s: Seq<(String, KeyBinding)>)
    requires
        stored_in_name_order(s),
    ensures
        forall|i: int, j: int|
            0 <= i < j < bound_actions(s).len() ==> (#[trigger] bound_actions(s)[i]).2
                != (#[trigger] bound_actions(s)[j]).2,
    decreases s.len(),
{
    if s.len() > 0 {
        let t = s.drop_last();
        assert forall|i: int, j: int| 0 <= i < j < t.len() implies name_precedes(
            #[trigger] t[i].0@,
            #[trigger] t[j].0@,
        ) by {
            assert(s[i] == t[i] && s[j] == t[j]);
        }
        law_stored_bindings_name_distinct_actions(t);
        lemma_bound_action_named(t);
        let last = s[s.len() - 1];
        assert forall|i: int, j: int| 0 <= i < j < bound_actions(s).len() implies (
        #[trigger] bound_actions(s)[i]).2 != (#[trigger] bound_actions(s)[j]).2 by {
            if j == bound_actions(t).len() {
                let m = choose|m: int| 0 <= m < t.len() && name_of(bound_actions(t)[i].2) == t[m].0@;
                assert(s[m] == t[m]);
                assert(name_precedes(s[m].0@, s[s.len() - 1].0@));
                assert(name_of(bound_actions(s)[j].2) == last.0@);
                lemma_name_precedes_irreflexive(last.0@);
            }
        }
    }
}

/// Each row of a section shows one of the stored bindings' names.
proof fn lemma_row_named(s: Seq<(String, KeyBinding)>, g: Seq<char>)
    ensures
        forall|k: int|
            0 <= k < rows_in_group(s, g).len() ==> exists|m: int|
                0 <= m < s.len() && (#[trigger] rows_in_group(s, g)[k]).0 == s[m].0@,
    decreases s.len(),
{
    if s.len() > 0 {
        let t = s.drop_last();
        lemma_row_named(t, g);
        assert forall|k: int| 0 <= k < rows_in_group(s, g).len() implies exists|m: int|
            0 <= m < s.len() && (#[trigger] rows_in_group(s, g)[k]).0 == s[m].0@ by {
            if k < rows_in_group(t, g).len() {
                let m = choose|m: int| 0 <= m < t.len() && rows_in_group(t, g)[k].0 == t[m].0@;
                assert(s[m] == t[m]);
            } else {
                assert(rows_in_group(s, g)[k].0 == s[s.len() - 1].0@);
            }
        }
    }
}

/// Stored as the settings file keeps them, in name order, each section of
/// the keybindings list shows its rows in name order.
pub proof fn law_settings_sections_in_name_order(s: Seq<(String, KeyBinding)>, g: Seq<char>)
    requires
        stored_in_name_order(s),
    ensures
        forall|i: int, j: int|
            0 <= i < j < rows_in_group(s, g).len() ==> name_precedes(
                (#[trigger] rows_in_group(s, g)[i]).0,
                (#[trigger] rows_in_group(s, g)[j]).0,
            ),
    decreases s.len(),
{
    if s.len() > 0 {
        let t = s.drop_last();
        assert forall|i: int, j: int| 0 <= i < j < t.len() implies name_precedes(
            #[trigger] t[i].0@,
            #[trigger] t[j].0@,
        ) by {
            assert(s[i] == t[i] && s[j] == t[j]);
        }
        law_settings_sections_in_name_order(t, g);
        lemma_row_named(t, g);
        assert forall|i: int, j: int| 0 <= i < j < rows_in_group(s, g).len() implies name_precedes(
            (#[trigger] rows_in_group(s, g)[i]).0,
            (#[trigger] rows_in_group(s, g)[j]).0,
        ) by {
            if j == rows_in_group(t, g).len() {
                let m = choose|m: int| 0 <= m < t.len() && rows_in_group(t, g)[i].0 == t[m].0@;
                assert(s[m] == t[m]);
                assert(name_precedes(s[m].0@, s[s.len() - 1].0@));
            }
        }
    }
}

/// The zone chosen at the screen's edges lies where the cursor is:
/// nothing away from every edge; a corner quarter exactly when the cursor
/// is near the top or bottom edge within a corner radius, on the top side
/// when near the top and on the left side when within the left corner
/// radius; otherwise maximize at the top, else the half on the side the
/// cursor is near (left before right before bottom).
pub proof fn law_edge_zone_sides(e: EdgeProximity)
    ensures
        edge_zone_of(e) is None <==> !(e.near_left || e.near_right || e.near_top || e.near_bottom),
        (edge_zone_of(e) == Some(SnapZone::TopLeftQuarter) || edge_zone_of(e) == Some(
            SnapZone::TopRightQuarter,
        ) || edge_zone_of(e) == Some(SnapZone::BottomLeftQuarter) || edge_zone_of(e) == Some(
            SnapZone::BottomRightQuarter,
        )) <==> ((e.near_top || e.near_bottom) && (e.near_left_corner || e.near_right_corner)),
        edge_zone_of(e) == Some(SnapZone::TopLeftQuarter) || edge_zone_of(e) == Some(
            SnapZone::TopRightQuarter,
        ) ==> e.near_top,
        edge_zone_of(e) == Some(SnapZone::BottomLeftQuarter) || edge_zone_of(e) == Some(
            SnapZone::BottomRightQuarter,
        ) ==> e.near_bottom && !e.near_top,
        edge_zone_of(e) == Some(SnapZone::TopLeftQuarter) || edge_zone_of(e) == Some(
            SnapZone::BottomLeftQuarter,
        ) ==> e.near_left_corner,
        edge_zone_of(e) == Some(SnapZone::TopRightQuarter) || edge_zone_of(e) == Some(
            SnapZone::BottomRightQuarter,
        ) ==> e.near_right_corner && !e.near_left_corner,
        !(e.near_left_corner || e.near_right_corner) && e.near_top ==> edge_zone_of(e) == Some(
            SnapZone::Maximize,
        ),
        !((e.near_top || e.near_bottom) && (e.near_left_corner || e.near_right_corner)) && !e.near_top
            ==> (e.near_left ==> edge_zone_of(e) == Some(SnapZone::LeftHalf)) && (!e.near_left
            && e.near_right ==> edge_zone_of(e) == Some(SnapZone::RightHalf)) && (!e.near_left
            && !e.near_right && e.near_bottom ==> edge_zone_of(e) == Some(SnapZone::BottomHalf)),
{
}

/// A drop splits a pane only in BSP mode, and only on a side of a pane:
/// the pane named by the zone is split side by side for a left or right
/// drop and one above the other for a top or bottom drop, and the window
/// takes the second slot exactly for a right or bottom drop.
pub proof fn law_split_plan_sides(zone: SnapZone, mode: TilingMode)
    ensures
        mode != TilingMode::Bsp ==> split_plan_of(zone, mode) is None,
        split_plan_of(zone, mode) is Some <==> mode == TilingMode::Bsp && (zone is SplitLeft
            || zone is SplitRight || zone is SplitTop || zone is SplitBottom),
        split_plan_of(zone, mode) matches Some((p, o, second)) ==> {
            &&& (o == Orientation::Horizontal <==> (zone == SnapZone::SplitLeft(p) || zone
                == SnapZone::SplitRight(p)))
            &&& (o == Orientation::Vertical <==> (zone == SnapZone::SplitTop(p) || zone
                == SnapZone::SplitBottom(p)))
            &&& (second <==> (zone == SnapZone::SplitRight(p) || zone == SnapZone::SplitBottom(p)))
        },
{
}

/// The word naming a direction in action names.
pub open spec fn direction_word(d: Direction) -> Seq<char> {
    match d {
        Direction::Left => "Left"@,
        Direction::Right => "Right"@,
        Direction::Up => "Up"@,
        Direction::Down => "Down"@,
    }
}

/// The swap action towards `d`, found by its name.
spec fn swap_action_toward(d: Direction) -> TileAction {
    choose|a: TileAction| name_of(a) == "SwapPane"@ + direction_word(d)
}

/// The move action towards `d`, found by its name.
spec fn move_action_toward(d: Direction) -> TileAction {
    choose|a: TileAction| name_of(a) == "MovePane"@ + direction_word(d)
}

proof fn lemma_directional_names(d: Direction)
    ensures
        name_of(swap_action_toward(d)) == "SwapPane"@ + direction_word(d),
        name_of(move_action_toward(d)) == "MovePane"@ + direction_word(d),
        kind_of(swap_action_toward(d)) == ActionKind::SwapPane(d),
        kind_of(move_action_toward(d)) == ActionKind::MoveWindow(d),
{
    reveal_strlit("SwapPane");
    reveal_strlit("MovePane");
    reveal_strlit("Left");
    reveal_strlit("Right");
    reveal_strlit("Up");
    reveal_strlit("Down");
    reveal_strlit("SwapPaneLeft");
    reveal_strlit("SwapPaneRight");
    reveal_strlit("SwapPaneUp");
    reveal_strlit("SwapPaneDown");
    reveal_strlit("MovePaneLeft");
    reveal_strlit("MovePaneRight");
    reveal_strlit("MovePaneUp");
    reveal_strlit("MovePaneDown");
    let (s, m) = match d {
        Direction::Left => (TileAction::SwapPaneLeft, TileAction::MovePaneLeft),
        Direction::Right => (TileAction::SwapPaneRight, TileAction::MovePaneRight),
        Direction::Up => (TileAction::SwapPaneUp, TileAction::MovePaneUp),
        Direction::Down => (TileAction::SwapPaneDown, TileAction::MovePaneDown),
    };
    assert(name_of(s) =~= "SwapPane"@ + direction_word(d));
    assert(name_of(m) =~= "MovePane"@ + direction_word(d));
    lemma_names_distinct(s, swap_action_toward(d));
    lemma_names_distinct(m, move_action_toward(d));
}

/// Each directional action is classified with the direction its name
/// gives: an action moves or swaps towards `d` exactly when it is named
/// "MovePane" or "SwapPane" followed by the word for `d`.
pub proof fn law_classify_direction(a: TileAction, d: Direction)
    ensures
        kind_of(a) == ActionKind::SwapPane(d) <==> name_of(a) == "SwapPane"@ + direction_word(d),
        kind_of(a) == ActionKind::MoveWindow(d) <==> name_of(a) == "MovePane"@ + direction_word(d),
{
    lemma_directional_names(d);
    if name_of(a) == "SwapPane"@ + direction_word(d) {
        lemma_names_distinct(a, swap_action_toward(d));
    }
    if name_of(a) == "MovePane"@ + direction_word(d) {
        lemma_names_distinct(a, move_action_toward(d));
    }
    if kind_of(a) == ActionKind::SwapPane(d) {
        let b = swap_action_toward(d);
        assert(a == b);
    }
    if kind_of(a) == ActionKind::MoveWindow(d) {
        let b = move_action_toward(d);
        assert(a == b);
    }
}

/// A pane whose active index names one of its tabs, if it has any.
pub open spec fn active_names_tab<F>(p: PaneView<F>) -> bool {
    p.tabs.len() > 0 ==> p.active < p.tabs.len()
}

/// Every pane of `t` has an active index naming one of its tabs.
pub open spec fn actives_name_tabs<R, F>(t: TreeView<R, F>) -> bool {
    forall|k: int| 0 <= k < t.leaves().len() ==> active_names_tab(#[trigger] t.leaves()[k])
}

/// Removing any tab from a pane takes exactly that tab out, and leaves the
/// active index naming one of the remaining tabs, if any remain, whatever
/// it named before.
pub proof fn law_tab_removal_keeps_active_tab<F>(p: PaneView<F>, k: int)
    requires
        0 <= k < p.tabs.len(),
    ensures
        p.without_tab(k).tabs == p.tabs.remove(k),
        p.without_tab(k).id == p.id,
        active_names_tab(p.without_tab(k)),
{
}

/// Cleaning up keeps only panes that were already there.
proof fn lemma_cleaned_keeps_actives<R, F>(t: TreeView<R, F>)
    requires
        actives_name_tabs(t),
    ensures
        actives_name_tabs(t.cleaned()),
{
    lemma_cleaned_leaves(t);
    if t.windows().len() > 0 {
        lemma_nonempty_members(t.leaves());
        assert forall|m: int| 0 <= m < t.cleaned().leaves().len() implies active_names_tab(
            #[trigger] t.cleaned().leaves()[m],
        ) by {
            let k = choose|k: int|
                0 <= k < t.leaves().len() && t.leaves()[k] == nonempty_panes(t.leaves())[m];
        }
    } else {
        let c = t.cleaned();
        assert forall|m: int| 0 <= m < c.leaves().len() implies active_names_tab(#[trigger] c.leaves()[m]) by {
            if let TreeView::Pane(q) = c {
                assert(c.leaves() == seq![q]);
            }
        }
    }
}

/// Removing a closed window keeps every pane's active index naming one of
/// its tabs: the pane that lost the window names one of its remaining tabs,
/// and the panes that are left after clean-up are as they were.
pub proof fn law_remove_window_keeps_active_tabs<R, F>(t: TreeView<R, F>, w: WindowId)
    requires
        actives_name_tabs(t),
    ensures
        actives_name_tabs(t.without_window(w)),
        actives_name_tabs(t.without_window(w).cleaned()),
{
    lemma_first_pane(t.leaves(), PaneQuery::Window(w));
    if let Some(i) = t.first(PaneQuery::Window(w)) {
        let p = t.leaves()[i];
        let k = first_tab(p.tabs, w);
        let kk = choose|kk: int| 0 <= kk < p.tabs.len() && (#[trigger] p.tabs[kk]).id == w;
        let j = lemma_first_holding(p.tabs, w, kk);
        assert(is_first_tab(p.tabs, w, j));
        law_tab_removal_keeps_active_tab(p, k);
        lemma_replace_leaf_pane(t, i, p.without_tab(k));
        let u = t.without_window(w);
        assert(u.leaves() == t.leaves().update(i, p.without_tab(k)));
        assert forall|m: int| 0 <= m < u.leaves().len() implies active_names_tab(#[trigger] u.leaves()[m]) by {
            if m != i {
                assert(u.leaves()[m] == t.leaves()[m]);
            }
        }
    }
    lemma_cleaned_keeps_actives(t.without_window(w));
}

/// Moving the focused window into another pane keeps every pane's active
/// index naming one of its tabs: the pane it left names one of its
/// remaining tabs, and the pane it joined names the moved window.
pub proof fn law_move_window_keeps_active_tabs<R: Copy, F, G>(tt: TileTree<R, F, G>, target: NodeId)
    requires
        tt.wf(),
        tt.can_move_to(target),
        actives_name_tabs(tt.root@),
    ensures
        actives_name_tabs(tt.moved_to(target)),
{
    let t = tt.root@;
    let i = tt.focused_index()->0;
    lemma_first_pane(t.leaves(), PaneQuery::Id(tt.focused_pane->0));
    let j = lemma_move_shape(t, i, target);
    let p = t.leaves()[i];
    law_tab_removal_keeps_active_tab(p, p.active as int);
    let t2 = t.replace_leaf(i, TreeView::Pane(p.without_tab(p.active as int))).stacked(
        target,
        p.tabs[p.active as int],
    );
    let l2 = t2.leaves();
    assert forall|m: int| 0 <= m < l2.len() implies active_names_tab(#[trigger] l2[m]) by {
        if m != i && m != j {
            assert(l2[m] == t.leaves()[m]);
        }
    }
    lemma_cleaned_keeps_actives(t2);
}

/// The key of an arrow in a direction, as shortcut labels show it.
pub open spec fn arrow_label(d: Direction) -> Seq<char> {
    match d {
        Direction::Left => "\u{2190}"@,
        Direction::Right => "\u{2192}"@,
        Direction::Up => "\u{2191}"@,
        Direction::Down => "\u{2193}"@,
    }
}

/// The key of the documented default shortcut of each action, as shortcut
/// labels show it; none for an action without a documented shortcut.
pub open spec fn documented_key(a: TileAction) -> Option<Seq<char>> {
    match a {
        TileAction::LeftHalf | TileAction::MovePaneLeft | TileAction::SwapPaneLeft => Some(
            arrow_label(Direction::Left),
        ),
        TileAction::RightHalf | TileAction::MovePaneRight | TileAction::SwapPaneRight => Some(
            arrow_label(Direction::Right),
        ),
        TileAction::TopHalf | TileAction::MovePaneUp | TileAction::SwapPaneUp => Some(
            arrow_label(Direction::Up),
        ),
        TileAction::BottomHalf | TileAction::MovePaneDown | TileAction::SwapPaneDown => Some(
            arrow_label(Direction::Down),
        ),
        TileAction::LeftThird => Some("D"@),
        TileAction::CenterThird => Some("F"@),
        TileAction::RightThird => Some("G"@),
        TileAction::LeftTwoThirds => Some("E"@),
        TileAction::CenterTwoThirds => Some("R"@),
        TileAction::RightTwoThirds => Some("T"@),
        TileAction::TopLeftQuarter => Some("U"@),
        TileAction::TopRightQuarter => Some("I"@),
        TileAction::BottomLeftQuarter => Some("J"@),
        TileAction::BottomRightQuarter => Some("K"@),
        TileAction::Maximize => Some("Return"@),
        TileAction::Center => Some("C"@),
        TileAction::Restore => Some("Backspace"@),
        TileAction::EqualizeAll => Some("="@),
        TileAction::ToggleZoom => Some("Z"@),
        _ => None,
    }
}

/// The modifiers of the documented default shortcuts: Ctrl+Opt, with Shift
/// to move a window between panes and with Cmd to swap panes.
pub open spec fn documented_modifiers(a: TileAction) -> u32 {
    match a {
        TileAction::MovePaneLeft | TileAction::MovePaneRight | TileAction::MovePaneUp
        | TileAction::MovePaneDown => CONTROL_KEY | OPTION_KEY | SHIFT_KEY,
        TileAction::SwapPaneLeft | TileAction::SwapPaneRight | TileAction::SwapPaneUp
        | TileAction::SwapPaneDown => CONTROL_KEY | OPTION_KEY | CMD_KEY,
        _ => CONTROL_KEY | OPTION_KEY,
    }
}

/// The default bindings are the documented shortcuts: each binds its
/// action to the documented key with the documented modifiers (Ctrl+Opt+D
/// to the left third, Ctrl+Opt+F to the center third, Ctrl+Opt+G to the
/// right third, and so on), in the hotkeys' defaults and in the settings'
/// defaults alike, and every action with a documented shortcut is bound.
pub proof fn law_default_bindings_documented()
    ensures
        forall|i: int|
            0 <= i < rectangle_bindings().len() ==> {
                let (k, m, a) = #[trigger] rectangle_bindings()[i];
                &&& documented_key(a) == Some(key_label(k))
                &&& m == documented_modifiers(a)
            },
        forall|i: int, a: TileAction|
            0 <= i < default_binding_table().len() && (#[trigger] default_binding_table()[i]).0
                == #[trigger] name_of(a) ==> {
                &&& documented_key(a) == Some(key_label(default_binding_table()[i].1))
                &&& default_binding_table()[i].2 == documented_modifiers(a)
            },
        forall|a: TileAction|
            #[trigger] documented_key(a) is Some ==> exists|i: int|
                0 <= i < rectangle_bindings().len() && (#[trigger] rectangle_bindings()[i]).2 == a,
{
    let rb = rectangle_bindings();
    assert(rb.len() == 27);
    assert forall|i: int| 0 <= i < rb.len() implies {
        let (k, m, a) = #[trigger] rb[i];
        &&& documented_key(a) == Some(key_label(k))
        &&& m == documented_modifiers(a)
    } by {
        assert(i == 0 || i == 1 || i == 2 || i == 3 || i == 4 || i == 5 || i == 6 || i == 7 || i == 8 || i == 9 || i == 10 || i == 11 || i == 12 || i == 13 || i == 14 || i == 15 || i == 16 || i == 17 || i == 18 || i == 19 || i == 20 || i == 21 || i == 22 || i == 23 || i == 24 || i == 25 || i == 26);
    }
    law_default_bindings_agree();
    assert forall|i: int, a: TileAction|
        0 <= i < default_binding_table().len() && (#[trigger] default_binding_table()[i]).0
            == #[trigger] name_of(a) implies {
        &&& documented_key(a) == Some(key_label(default_binding_table()[i].1))
        &&& default_binding_table()[i].2 == documented_modifiers(a)
    } by {
        let _ = rb[i];
        lemma_names_distinct(a, rb[i].2);
    }
    assert forall|a: TileAction| #[trigger] documented_key(a) is Some implies exists|i: int|
        0 <= i < rb.len() && (#[trigger] rb[i]).2 == a by {
        match a {
            TileAction::LeftHalf => assert(rb[0].2 == a),
            TileAction::RightHalf => assert(rb[1].2 == a),
            TileAction::TopHalf => assert(rb[2].2 == a),
            TileAction::BottomHalf => assert(rb[3].2 == a),
            TileAction::LeftThird => assert(rb[4].2 == a),
            TileAction::CenterThird => assert(rb[5].2 == a),
            TileAction::RightThird => assert(rb[6].2 == a),
            TileAction::LeftTwoThirds => assert(rb[7].2 == a),
            TileAction::CenterTwoThirds => assert(rb[8].2 == a),
            TileAction::RightTwoThirds => assert(rb[9].2 == a),
            TileAction::TopLeftQuarter => assert(rb[10].2 == a),
            TileAction::TopRightQuarter => assert(rb[11].2 == a),
            TileAction::BottomLeftQuarter => assert(rb[12].2 == a),
            TileAction::BottomRightQuarter => assert(rb[13].2 == a),
            TileAction::Maximize => assert(rb[14].2 == a),
            TileAction::Center => assert(rb[15].2 == a),
            TileAction::Restore => assert(rb[16].2 == a),
            TileAction::EqualizeAll => assert(rb[17].2 == a),
            TileAction::ToggleZoom => assert(rb[18].2 == a),
            TileAction::MovePaneLeft => assert(rb[19].2 == a),
            TileAction::MovePaneRight => assert(rb[20].2 == a),
            TileAction::MovePaneUp => assert(rb[21].2 == a),
            TileAction::MovePaneDown => assert(rb[22].2 == a),
            TileAction::SwapPaneLeft => assert(rb[23].2 == a),
            TileAction::SwapPaneRight => assert(rb[24].2 == a),
            TileAction::SwapPaneUp => assert(rb[25].2 == a),
            TileAction::SwapPaneDown => assert(rb[26].2 == a),
            _ => {},
        }
    }
}

/// The actions that are not placements are classified by their names:
/// restore, equalize, zoom, snapping beside the nearest window, and the
/// next and previous tab each have the kind their name says; every action
/// with another name that neither moves nor swaps is a placement.
pub proof fn law_classify_named(a: TileAction)
    ensures
        kind_of(a) == ActionKind::Restore <==> name_of(a) == "Restore"@,
        kind_of(a) == ActionKind::EqualizeAll <==> name_of(a) == "EqualizeAll"@,
        kind_of(a) == ActionKind::ToggleZoom <==> name_of(a) == "ToggleZoom"@,
        kind_of(a) == ActionKind::SnapToNearest <==> name_of(a) == "SnapToNearest"@,
        kind_of(a) == ActionKind::CycleStack(true) <==> name_of(a) == "StackNext"@,
        kind_of(a) == ActionKind::CycleStack(false) <==> name_of(a) == "StackPrev"@,
        kind_of(a) == ActionKind::Place <==> !(name_of(a) == "Restore"@ || name_of(a)
            == "EqualizeAll"@ || name_of(a) == "ToggleZoom"@ || name_of(a) == "SnapToNearest"@
            || name_of(a) == "StackNext"@ || name_of(a) == "StackPrev"@ || kind_of(a) is MoveWindow
            || kind_of(a) is SwapPane),
{
    if name_of(a) == "Restore"@ {
        lemma_names_distinct(a, TileAction::Restore);
    }
    if name_of(a) == "EqualizeAll"@ {
        lemma_names_distinct(a, TileAction::EqualizeAll);
    }
    if name_of(a) == "ToggleZoom"@ {
        lemma_names_distinct(a, TileAction::ToggleZoom);
    }
    if name_of(a) == "SnapToNearest"@ {
        lemma_names_distinct(a, TileAction::SnapToNearest);
    }
    if name_of(a) == "StackNext"@ {
        lemma_names_distinct(a, TileAction::StackNext);
    }
    if name_of(a) == "StackPrev"@ {
        lemma_names_distinct(a, TileAction::StackPrev);
    }
}

/// The zone chosen inside a pane names that pane and lies where the cursor
/// is in it: the middle half in both directions stacks onto the pane;
/// otherwise the outer quarter the cursor is in splits the pane on that
/// side, the left and right quarters before the top and bottom ones.
pub proof fn law_pane_zone_sides(id: NodeId, o: PaneOffset)
    ensures
        ({
            let middle = o.x_above_quarter && o.x_below_three_quarters && o.y_above_quarter
                && o.y_below_three_quarters;
            &&& pane_zone_of(id, o) == Some(SnapZone::Stack(id)) <==> middle
            &&& pane_zone_of(id, o) == Some(SnapZone::SplitLeft(id)) <==> !middle && o.x_below_quarter
            &&& pane_zone_of(id, o) == Some(SnapZone::SplitRight(id)) <==> !middle
                && !o.x_below_quarter && o.x_above_three_quarters
            &&& pane_zone_of(id, o) == Some(SnapZone::SplitTop(id)) <==> !middle
                && !o.x_below_quarter && !o.x_above_three_quarters && o.y_below_quarter
            &&& pane_zone_of(id, o) == Some(SnapZone::SplitBottom(id)) <==> !middle
                && !o.x_below_quarter && !o.x_above_three_quarters && !o.y_below_quarter
                && o.y_above_three_quarters
            &&& pane_zone_of(id, o) is None <==> !middle && !o.x_below_quarter
                && !o.x_above_three_quarters && !o.y_below_quarter && !o.y_above_three_quarters
            &&& pane_zone_of(id, o) is Some ==> pane_zone_of(id, o) == Some(SnapZone::Stack(id))
                || pane_zone_of(id, o) == Some(SnapZone::SplitLeft(id)) || pane_zone_of(id, o)
                == Some(SnapZone::SplitRight(id)) || pane_zone_of(id, o) == Some(
                SnapZone::SplitTop(id),
            ) || pane_zone_of(id, o) == Some(SnapZone::SplitBottom(id))
        }),
{
}

} // verus!
