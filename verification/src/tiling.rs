//! The tiling tree manager: the tree together with the focused pane and the
//! source of fresh identifiers.

use vstd::prelude::*;
use crate::ids::{bump, IdSource, NodeId, WindowId};
use crate::tree::{
    first_pid_tab, first_tab, first_window_of, holds_window, other_windows, is_first_tab, lemma_first_pane, lemma_leaves_nonempty,
    split_pane_view_with, Node, PaneQuery, PaneView, TreeView,
};
use crate::tree_lemmas::{
    lemma_cleaned_ids, lemma_find_id, lemma_move_window, lemma_replace_leaf_pane, lemma_find_pane, lemma_find_pane_split,
    lemma_replace_node_commute, lemma_replace_node_find, lemma_replace_node_find_other,
    lemma_replace_node_ids, lemma_replace_node_self, lemma_replace_node_twice, lemma_replace_same_id,
    lemma_split_found, lemma_split_ids, lemma_split_then_stack, lemma_unique_find,
};
use crate::types::{ManagedWindow, Orientation};

verus! {

/// The tiling tree manager. Holds the root node and manages operations.
///
/// `R` is the split ratio, `F` the window frame and `G` the gap
/// configuration; the library carries them without reading them.
#[derive(Debug)]
pub struct TileTree<R, F, G> {
    pub root: Node<R, F>,
    pub gaps: G,
    /// The currently focused pane.
    pub focused_pane: Option<NodeId>,
    /// Source of the identifiers of new nodes and windows.
    pub ids: IdSource,
    /// The ratio of an even split, given to every split the manager makes.
    pub even_ratio: R,
}

impl<R: Copy, F, G> TileTree<R, F, G> {
    /// Node identifiers are unique and all were handed out by `ids`.
    pub open spec fn wf(&self) -> bool {
        &&& self.root@.unique_ids()
        &&& self.root@.ids_below(self.ids.next_node())
    }

    /// Index of the focused pane among the panes, if the focus names a pane.
    pub open spec fn focused_index(&self) -> Option<int> {
        match self.focused_pane {
            Some(p) => self.root@.first(PaneQuery::Id(p)),
            None => None,
        }
    }

    /// `after` and `r` are the tree and result of adding `window` to this
    /// tree: into the focused pane if it is empty, else into a new second
    /// pane split off the focused pane; without a focused pane, into the
    /// first empty pane, else into a new second pane split off the first
    /// pane.
    pub open spec fn added(&self, window: ManagedWindow<F>, after: &Self, r: NodeId) -> bool {
        let t = self.root@;
        let l = t.leaves();
        let n = self.ids.next_node();
        let a = NodeId(n);
        let b = NodeId(bump(n));
        let s = NodeId(bump(bump(n)));
        let even = self.even_ratio;
        match self.focused_index() {
            Some(k) => if l[k].tabs.len() == 0 {
                &&& r == l[k].id
                &&& after.root@ == t.replace_leaf(k, TreeView::Pane(l[k].with_tab(window)))
                &&& after.focused_pane == self.focused_pane
                &&& after.ids.next_node() == n
            } else {
                &&& r == b
                &&& after.root@ == t.replace_leaf(
                    k,
                    split_pane_view_with(l[k], Orientation::Horizontal, even, a, b, s, window),
                )
                &&& after.focused_pane == Some(b)
                &&& after.ids.next_node() == bump(bump(bump(n)))
            },
            None => match t.first(PaneQuery::Empty) {
                Some(j) => {
                    &&& r == l[j].id
                    &&& after.root@ == t.replace_leaf(j, TreeView::Pane(l[j].with_tab(window)))
                    &&& after.focused_pane == Some(l[j].id)
                    &&& after.ids.next_node() == n
                },
                None => {
                    &&& r == b
                    &&& after.root@ == t.replace_leaf(
                        0,
                        split_pane_view_with(l[0], Orientation::Horizontal, even, a, b, s, window),
                    )
                    &&& after.focused_pane == Some(b)
                    &&& after.ids.next_node() == bump(bump(bump(n)))
                },
            },
        }
    }

    /// The active window of the focused pane can move to the pane `target`:
    /// the focus names a pane whose active index names a tab, and `target`
    /// names another pane.
    pub open spec fn can_move_to(&self, target: NodeId) -> bool {
        match self.focused_index() {
            Some(i) => {
                let p = self.root@.leaves()[i];
                &&& p.active < p.tabs.len()
                &&& p.id != target
                &&& self.root@.first(PaneQuery::Id(target)) is Some
            },
            None => false,
        }
    }

    /// The active window of the focused pane.
    pub open spec fn moving_window(&self) -> ManagedWindow<F> {
        let p = self.root@.leaves()[self.focused_index()->0];
        p.tabs[p.active as int]
    }

    /// The tree after the active window of the focused pane leaves it, joins
    /// the pane `target` as its active tab, and empty panes are cleaned up.
    pub open spec fn moved_to(&self, target: NodeId) -> TreeView<R, F> {
        let i = self.focused_index()->0;
        let p = self.root@.leaves()[i];
        self.root@.replace_leaf(i, TreeView::Pane(p.without_tab(p.active as int))).stacked(
            target,
            p.tabs[p.active as int],
        ).cleaned()
    }

    /// A tree with one empty pane, no focus, and the given gaps.
    pub fn new(gaps: G, even_ratio: R) -> (t: Self)
        ensures
            t.wf(),
            t.root@ == TreeView::<R, F>::Pane(
                PaneView { id: NodeId(1), tabs: seq![], active: 0, zoomed: false },
            ),
            t.focused_pane is None,
            t.gaps == gaps,
            t.even_ratio == even_ratio,
            t.ids.next_node() == 2,
            t.ids.next_window() == 1,
    {
        let mut ids = IdSource::new();
        let root = Node::new_pane(&mut ids);
        TileTree { root, gaps, focused_pane: None, ids, even_ratio }
    }

    /// Add a window. If the focused pane is empty the window becomes its
    /// first tab; if it has content it is split and the window goes into the
    /// new second pane.  Without a focused pane the window goes into the
    /// first empty pane, or else the first pane is split.  The pane that
    /// receives the window is returned and becomes focused.
    pub fn add_window(&mut self, window: ManagedWindow<F>) -> (r: NodeId)
        requires
            old(self).wf(),
            old(self).ids.next_node() < u64::MAX - 2,
        ensures
            final(self).wf(),
            final(self).gaps == old(self).gaps,
            final(self).even_ratio == old(self).even_ratio,
            final(self).ids.next_window() == old(self).ids.next_window(),
            old(self).added(window, final(self), r),
    {
        let ghost t = self.root@;
        let ghost n = self.ids.next_node();
        proof {
            lemma_leaves_nonempty(t);
            lemma_first_pane(t.leaves(), PaneQuery::Empty);
            if let Some(p) = self.focused_pane {
                lemma_first_pane(t.leaves(), PaneQuery::Id(p));
                if let Some(k) = t.first(PaneQuery::Id(p)) {
                    lemma_unique_find(t, k);
                }
                if let Some(TreeView::Pane(pv)) = t.find(p) {
                    lemma_find_pane(t, p, pv);
                }
            }
        }
        // If we have a focused pane, try to put the window there.
        if let Some(pane_id) = self.focused_pane {
            let target = match self.root.find(pane_id) {
                Some(Node::Pane { tabs, .. }) => Some(tabs.len() == 0),
                _ => None,
            };
            match target {
                Some(true) => {
                    // Empty pane: add as first tab.
                    let ghost k = t.first(PaneQuery::Id(pane_id))->0;
                    self.root.stack_window(pane_id, window);
                    proof {
                        lemma_replace_same_id(t, k, t.leaves()[k].with_tab(window));
                    }
                    return pane_id;
                },
                Some(false) => {
                    // Split the focused pane.
                    let ghost k = t.first(PaneQuery::Id(pane_id))->0;
                    proof {
                        lemma_find_pane_split(
                            t,
                            pane_id,
                            t.leaves()[k],
                            Orientation::Horizontal,
                            self.even_ratio,
                            NodeId(n),
                            NodeId(bump(n)),
                            NodeId(bump(bump(n))),
                        );
                        lemma_split_then_stack(t, k, n, Orientation::Horizontal, self.even_ratio, window);
                    }
                    let even = self.even_ratio;
                    if let Some((_first, second)) = self.root.split_pane(
                        pane_id,
                        Orientation::Horizontal,
                        even,
                        &mut self.ids,
                    ) {
                        self.root.stack_window(second, window);
                        self.focused_pane = Some(second);
                        return second;
                    }
                },
                None => {},
            }
        }
        // Find the first empty pane.
        if let Some(pid) = self.root.find_first(PaneQuery::Empty) {
            let ghost j = t.first(PaneQuery::Empty)->0;
            proof {
                lemma_unique_find(t, j);
                lemma_replace_same_id(t, j, t.leaves()[j].with_tab(window));
            }
            self.root.stack_window(pid, window);
            self.focused_pane = Some(pid);
            return pid;
        }
        // No empty pane found: split the first pane.
        let pane_ids = self.root.pane_ids();
        let first_pane = pane_ids[0];
        proof {
            lemma_unique_find(t, 0);
            lemma_find_pane_split(
                t,
                first_pane,
                t.leaves()[0],
                Orientation::Horizontal,
                self.even_ratio,
                NodeId(n),
                NodeId(bump(n)),
                NodeId(bump(bump(n))),
            );
            lemma_split_then_stack(t, 0, n, Orientation::Horizontal, self.even_ratio, window);
        }
        let even = self.even_ratio;
        if let Some((_first, second)) = self.root.split_pane(
            first_pane,
            Orientation::Horizontal,
            even,
            &mut self.ids,
        ) {
            self.root.stack_window(second, window);
            self.focused_pane = Some(second);
            return second;
        }
        // Fallback: stack on root (does not happen on a well-formed tree).
        let root_id = self.root.id();
        self.root.stack_window(root_id, window);
        root_id
    }

    /// Remove a window and clean up empty panes.
    pub fn remove_window(&mut self, window_id: WindowId) -> (r: Option<ManagedWindow<F>>)
        ensures
            match old(self).root@.first(PaneQuery::Window(window_id)) {
                Some(i) => {
                    let p = old(self).root@.leaves()[i];
                    &&& r == Some(p.tabs[first_tab(p.tabs, window_id)])
                    &&& final(self).root@ == old(self).root@.without_window(window_id).cleaned()
                },
                None => r is None && final(self).root@ == old(self).root@,
            },
            old(self).wf() ==> final(self).wf(),
            final(self).focused_pane == old(self).focused_pane,
            final(self).ids == old(self).ids,
            final(self).gaps == old(self).gaps,
            final(self).even_ratio == old(self).even_ratio,
    {
        let ghost t = self.root@;
        let win = self.root.remove_window(window_id);
        proof {
            lemma_first_pane(t.leaves(), PaneQuery::Window(window_id));
            if let Some(i) = t.first(PaneQuery::Window(window_id)) {
                let p = t.leaves()[i];
                lemma_replace_same_id(t, i, p.without_tab(first_tab(p.tabs, window_id)));
            }
        }
        if win.is_some() {
            proof {
                lemma_cleaned_ids(self.root@);
            }
            self.root.cleanup();
        }
        win
    }

    /// Cycle the active tab in a stacked pane.
    /// `forward = true` means next tab, `false` means previous tab.
    /// Returns the index of the newly active tab, or None if the pane was not found
    /// or has fewer than 2 tabs.
    pub fn cycle_tab(&mut self, pane_id: NodeId, forward: bool) -> (r: Option<usize>)
        requires
            old(self).root@.find(pane_id) matches Some(TreeView::Pane(p)) ==> (forward
                && p.tabs.len() >= 2 ==> p.active < usize::MAX),
        ensures
            r == match old(self).root@.find(pane_id) {
                Some(TreeView::Pane(p)) => if p.tabs.len() < 2 {
                    None
                } else {
                    Some(p.cycled(forward))
                },
                _ => None,
            },
            final(self).root@ == old(self).root@.tab_cycled(pane_id, forward),
            old(self).wf() ==> final(self).wf(),
            final(self).focused_pane == old(self).focused_pane,
            final(self).ids == old(self).ids,
            final(self).gaps == old(self).gaps,
            final(self).even_ratio == old(self).even_ratio,
    {
        proof {
            lemma_find_id(self.root@, pane_id);
            if let Some(TreeView::Pane(p)) = self.root@.find(pane_id) {
                lemma_replace_node_ids(self.root@, pane_id, p.with_active(p.cycled(forward)));
            }
        }
        self.root.cycle_active(pane_id, forward)
    }

    /// Swap two panes' contents.
    pub fn swap_panes(&mut self, a: NodeId, b: NodeId)
        ensures
            final(self).root@ == old(self).root@.swapped_panes(a, b),
            old(self).wf() ==> final(self).wf(),
            final(self).focused_pane == old(self).focused_pane,
            final(self).ids == old(self).ids,
            final(self).gaps == old(self).gaps,
            final(self).even_ratio == old(self).even_ratio,
    {
        let ghost t = self.root@;
        let a_is_pane = match self.root.find(a) {
            Some(Node::Pane { .. }) => true,
            _ => false,
        };
        let b_is_pane = match self.root.find(b) {
            Some(Node::Pane { .. }) => true,
            _ => false,
        };
        if !a_is_pane || !b_is_pane {
            return;
        }
        let ghost pa = t.find(a)->0->Pane_0;
        let ghost pb = t.find(b)->0->Pane_0;
        proof {
            lemma_find_id(t, a);
            lemma_find_id(t, b);
        }
        if a == b {
            proof {
                assert(pa.with_tabs(pa.tabs) == pa);
                lemma_replace_node_self(t, a);
            }
            return;
        }
        let ghost b0 = pb.with_tabs(seq![]);
        let ghost na = pa.with_tabs(pb.tabs);
        let ghost nb = pb.with_tabs(pa.tabs);
        proof {
            lemma_replace_node_find_other(t, b, b0, a);
            lemma_replace_node_find(t, b, TreeView::Pane(b0));
            lemma_replace_node_ids(t, b, b0);
        }
        let tb = self.root.replace_tabs(b, Vec::new());
        let ghost t1 = self.root@;
        assert(t1 == t.replace_node(b, TreeView::Pane(b0)));
        proof {
            lemma_replace_node_find_other(t1, a, na, b);
            lemma_replace_node_ids(t1, a, na);
        }
        let ta = self.root.replace_tabs(a, tb);
        let ghost t2 = self.root@;
        proof {
            lemma_replace_node_ids(t2, b, nb);
            // t2 is t with a replaced, then b emptied.
            lemma_replace_node_commute(t, b, b0, a, na);
            lemma_replace_node_find_other(t, a, na, b);
            lemma_replace_node_twice(t.replace_node(a, TreeView::Pane(na)), b, TreeView::Pane(b0), TreeView::Pane(nb));
        }
        let _ = self.root.replace_tabs(b, ta);
    }

    /// Drop `window` onto a side of the pane `pane_id`.  A window of the
    /// same process that the tree already manages leaves it first (empty
    /// panes are cleaned up).  Then the pane is split with the given
    /// orientation and the even ratio; the window goes into the new second
    /// pane when `into_second` holds (a right or bottom drop), and otherwise
    /// into the first pane, whose windows move to the second.  The pane that
    /// receives the window is returned and focused.  Nothing is split when
    /// `pane_id` names no pane.
    pub fn drop_into_pane(
        &mut self,
        pane_id: NodeId,
        orientation: Orientation,
        into_second: bool,
        window: ManagedWindow<F>,
    ) -> (r: Option<NodeId>)
        requires
            old(self).wf(),
            old(self).ids.next_node() < u64::MAX - 2,
        ensures
            final(self).wf(),
            final(self).gaps == old(self).gaps,
            final(self).even_ratio == old(self).even_ratio,
            final(self).ids.next_window() == old(self).ids.next_window(),
            ({
                let t1 = old(self).root@.without_pid(window.pid);
                let n = old(self).ids.next_node();
                let a = NodeId(n);
                let b = NodeId(bump(n));
                let s = NodeId(bump(bump(n)));
                match t1.split_at(pane_id, orientation, old(self).even_ratio, a, b, s) {
                    Some(t2) => {
                        let target = if into_second { b } else { a };
                        let t3 = if into_second { t2 } else { t2.swapped_panes(a, b) };
                        &&& r == Some(target)
                        &&& final(self).root@ == t3.stacked(target, window)
                        &&& final(self).focused_pane == Some(target)
                        &&& final(self).ids.next_node() == bump(bump(bump(n)))
                    },
                    None => {
                        &&& r is None
                        &&& final(self).root@ == t1
                        &&& final(self).focused_pane == old(self).focused_pane
                        &&& final(self).ids.next_node() == n
                    },
                }
            }),
    {
        let ghost t0 = self.root@;
        let pid = window.pid;
        // Remove the window's process from the tree if it is managed there.
        if let Some(existing) = self.root.find_pane_by_pid(pid) {
            let ghost i = t0.first(PaneQuery::Pid(pid))->0;
            proof {
                lemma_first_pane(t0.leaves(), PaneQuery::Pid(pid));
                lemma_unique_find(t0, i);
            }
            let wid = match self.root.find(existing) {
                Some(Node::Pane { tabs, .. }) => first_window_of(tabs, pid),
                _ => None,
            };
            if let Some(wid) = wid {
                proof {
                    let p = t0.leaves()[i];
                    let k = first_pid_tab(p.tabs, pid);
                    assert(p.tabs[k].id == wid);
                    assert(PaneQuery::Window(wid).holds(p));
                    lemma_first_pane(t0.leaves(), PaneQuery::Window(wid));
                }
                self.remove_window(wid);
            }
        }
        let ghost t1 = self.root@;
        assert(t1 == t0.without_pid(pid));
        let ghost n = self.ids.next_node();
        let even = self.even_ratio;
        proof {
            lemma_split_found(t1, pane_id, orientation, even, NodeId(n), NodeId(bump(n)), NodeId(bump(bump(n))));
            if let Some(TreeView::Pane(pv)) = t1.find(pane_id) {
                lemma_split_ids(t1, pane_id, pv, orientation, even, n);
            }
        }
        match self.root.split_pane(pane_id, orientation, even, &mut self.ids) {
            Some((first_id, second_id)) => {
                let target = if into_second {
                    second_id
                } else {
                    // The first slot takes the dropped window: move the
                    // pane's windows to the second slot.
                    self.swap_panes(first_id, second_id);
                    first_id
                };
                let ghost t3 = self.root@;
                proof {
                    lemma_first_pane(t3.leaves(), PaneQuery::Id(target));
                    if let Some(k) = t3.first(PaneQuery::Id(target)) {
                        lemma_replace_same_id(t3, k, t3.leaves()[k].with_tab(window));
                    }
                }
                self.root.stack_window(target, window);
                self.focused_pane = Some(target);
                Some(target)
            },
            None => None,
        }
    }

    /// Add `window` unless some pane already holds a window of its process;
    /// the pane that receives it is returned.
    pub fn manage_window(&mut self, window: ManagedWindow<F>) -> (r: Option<NodeId>)
        requires
            old(self).wf(),
            old(self).ids.next_node() < u64::MAX - 2,
        ensures
            final(self).wf(),
            match old(self).root@.first(PaneQuery::Pid(window.pid)) {
                Some(_) => r is None && *final(self) == *old(self),
                None => r matches Some(p) && old(self).added(window, final(self), p),
            },
            final(self).gaps == old(self).gaps,
            final(self).even_ratio == old(self).even_ratio,
            final(self).ids.next_window() == old(self).ids.next_window(),
    {
        if self.root.find_pane_by_pid(window.pid).is_some() {
            return None;
        }
        Some(self.add_window(window))
    }

    /// After the focus moved away from `previous`, swap the windows of the
    /// pane it left and the pane it reached.  True if both are set and
    /// differ, and so were swapped.
    pub fn swap_with_focused(&mut self, previous: Option<NodeId>) -> (r: bool)
        ensures
            r == (previous is Some && old(self).focused_pane is Some && previous->0
                != old(self).focused_pane->0),
            final(self).root@ == if r {
                old(self).root@.swapped_panes(previous->0, old(self).focused_pane->0)
            } else {
                old(self).root@
            },
            old(self).wf() ==> final(self).wf(),
            final(self).focused_pane == old(self).focused_pane,
            final(self).ids == old(self).ids,
            final(self).gaps == old(self).gaps,
            final(self).even_ratio == old(self).even_ratio,
    {
        match (previous, self.focused_pane) {
            (Some(a), Some(b)) => {
                if a != b {
                    self.swap_panes(a, b);
                    true
                } else {
                    false
                }
            },
            _ => false,
        }
    }

    /// Move the active window of the focused pane into the pane `target`,
    /// where it becomes the active tab, and focus that pane; empty panes are
    /// cleaned up.  Returns the pane now focused, or none (and changes
    /// nothing) unless the focused pane has an active window and `target`
    /// names another pane.
    pub fn move_window_to(&mut self, target: NodeId) -> (r: Option<NodeId>)
        requires
            old(self).wf(),
        ensures
            final(self).wf(),
            if old(self).can_move_to(target) {
                &&& r == Some(target)
                &&& final(self).root@ == old(self).moved_to(target)
                &&& final(self).focused_pane == Some(target)
            } else {
                &&& r is None
                &&& final(self).root@ == old(self).root@
                &&& final(self).focused_pane == old(self).focused_pane
            },
            old(self).can_move_to(target) ==> ({
                let x = old(self).moving_window();
                let t = final(self).root@;
                &&& other_windows(t.windows(), x.id) == other_windows(old(self).root@.windows(), x.id)
                &&& t.first(PaneQuery::Id(target)) matches Some(j) && t.leaves()[j].tabs.last() == x
                    && t.leaves()[j].active == (t.leaves()[j].tabs.len() - 1) as usize
                &&& old(self).root@.held_once(x.id) ==> (t.first(PaneQuery::Window(x.id)) matches Some(
                    j,
                ) && t.leaves()[j].id == target)
                &&& old(self).root@.held_once(x.id) ==> forall|k: int|
                    0 <= k < t.leaves().len() && holds_window((#[trigger] t.leaves()[k]).tabs, x.id)
                        ==> t.leaves()[k].id == target
                &&& old(self).root@.held_once(x.id) ==> forall|k: int|
                    0 <= k < t.leaves().len() && (#[trigger] t.leaves()[k]).id == old(self).focused_pane->0
                        ==> !holds_window(t.leaves()[k].tabs, x.id)
            }),
            final(self).ids == old(self).ids,
            final(self).gaps == old(self).gaps,
            final(self).even_ratio == old(self).even_ratio,
    {
        let c = match self.focused_pane {
            Some(c) => c,
            None => return None,
        };
        if c == target {
            proof {
                lemma_first_pane(self.root@.leaves(), PaneQuery::Id(c));
            }
            return None;
        }
        if self.root.find_first(PaneQuery::Id(target)).is_none() {
            return None;
        }
        let ghost t0 = self.root@;
        proof {
            lemma_first_pane(t0.leaves(), PaneQuery::Id(c));
            lemma_first_pane(t0.leaves(), PaneQuery::Id(target));
        }
        match self.root.take_active(c) {
            None => None,
            Some(window) => {
                let ghost i = t0.first(PaneQuery::Id(c))->0;
                let ghost p = t0.leaves()[i];
                let ghost t1 = self.root@;
                proof {
                    lemma_move_window(t0, i, target);
                    lemma_replace_leaf_pane(t0, i, p.without_tab(p.active as int));
                    lemma_replace_same_id(t0, i, p.without_tab(p.active as int));
                    lemma_first_pane(t1.leaves(), PaneQuery::Id(target));
                    let j = t1.first(PaneQuery::Id(target))->0;
                    lemma_replace_same_id(t1, j, t1.leaves()[j].with_tab(window));
                }
                self.root.stack_window(target, window);
                proof {
                    lemma_cleaned_ids(self.root@);
                }
                self.root.cleanup();
                self.focused_pane = Some(target);
                Some(target)
            },
        }
    }
}

} // verus!
