//! The binary split tree that places windows into panes.
//!
//! `R` is the split ratio and `F` the window frame; both are carried through
//! the tree without being read.  Geometry is computed outside this crate.

use vstd::prelude::*;
use crate::ids::{bump, IdSource, NodeId, WindowId};
use crate::types::{ManagedWindow, Orientation};

verus! {

// ---------------------------------------------------------------------------
// Mathematical model
// ---------------------------------------------------------------------------

/// The contents of one pane, as a value.
pub struct PaneView<F> {
    pub id: NodeId,
    pub tabs: Seq<ManagedWindow<F>>,
    pub active: usize,
    pub zoomed: bool,
}

/// A tree, as a value: the model of [`Node`].
pub enum TreeView<R, F> {
    Split {
        orientation: Orientation,
        ratio: R,
        first: Box<TreeView<R, F>>,
        second: Box<TreeView<R, F>>,
        id: NodeId,
    },
    Pane(PaneView<F>),
}

/// A property of a pane that the tree is searched for.
#[derive(Clone, Copy)]
pub enum PaneQuery {
    /// The pane has this identifier.
    Id(NodeId),
    /// The pane holds a window with this identifier.
    Window(WindowId),
    /// The pane holds a window of this process.
    Pid(i32),
    /// The pane is zoomed.
    Zoomed,
    /// The pane holds no window.
    Empty,
}

/// Whether `tabs` holds a window with identifier `w`.
pub open spec fn holds_window<F>(tabs: Seq<ManagedWindow<F>>, w: WindowId) -> bool {
    exists|k: int| 0 <= k < tabs.len() && (#[trigger] tabs[k]).id == w
}

/// Whether `tabs` holds a window of process `pid`.
pub open spec fn holds_pid<F>(tabs: Seq<ManagedWindow<F>>, pid: i32) -> bool {
    exists|k: int| 0 <= k < tabs.len() && (#[trigger] tabs[k]).pid == pid
}

impl PaneQuery {
    pub open spec fn holds<F>(self, p: PaneView<F>) -> bool {
        match self {
            PaneQuery::Id(t) => p.id == t,
            PaneQuery::Window(w) => holds_window(p.tabs, w),
            PaneQuery::Pid(pid) => holds_pid(p.tabs, pid),
            PaneQuery::Zoomed => p.zoomed,
            PaneQuery::Empty => p.tabs.len() == 0,
        }
    }
}

/// Index of the first pane of `s` that satisfies `q`, if any.
pub open spec fn first_pane<F>(s: Seq<PaneView<F>>, q: PaneQuery) -> Option<int>
    decreases s.len(),
{
    if s.len() == 0 {
        None
    } else if q.holds(s[0]) {
        Some(0)
    } else {
        match first_pane(s.drop_first(), q) {
            Some(i) => Some(i + 1),
            None => None,
        }
    }
}

/// `i` is the position of the first pane of `s` that satisfies `q`.
pub open spec fn is_first_pane<F>(s: Seq<PaneView<F>>, q: PaneQuery, i: int) -> bool {
    &&& 0 <= i < s.len()
    &&& q.holds(s[i])
    &&& forall|j: int| 0 <= j < i ==> !q.holds(#[trigger] s[j])
}

pub proof fn lemma_first_pane<F>(s: Seq<PaneView<F>>, q: PaneQuery)
    ensures
        match first_pane(s, q) {
            Some(i) => is_first_pane(s, q, i),
            None => forall|j: int| 0 <= j < s.len() ==> !q.holds(#[trigger] s[j]),
        },
    decreases s.len(),
{
    if s.len() > 0 && !q.holds(s[0]) {
        lemma_first_pane(s.drop_first(), q);
        assert forall|j: int| 1 <= j < s.len() implies s[j] == #[trigger] s.drop_first()[j - 1] by {}
        match first_pane(s.drop_first(), q) {
            Some(i) => {
                assert forall|j: int| 0 <= j < i + 1 implies !q.holds(#[trigger] s[j]) by {
                    if j > 0 {
                        assert(s[j] == s.drop_first()[j - 1]);
                    }
                }
            },
            None => {
                assert forall|j: int| 0 <= j < s.len() implies !q.holds(#[trigger] s[j]) by {
                    if j > 0 {
                        assert(s[j] == s.drop_first()[j - 1]);
                    }
                }
            },
        }
    }
}

pub proof fn lemma_first_pane_single<F>(p: PaneView<F>, q: PaneQuery)
    ensures
        first_pane(seq![p], q) == if q.holds(p) { Some(0int) } else { None },
{
    reveal_with_fuel(first_pane, 2);
    assert(seq![p][0] == p);
    assert(seq![p].drop_first() =~= Seq::<PaneView<F>>::empty());
}

pub proof fn lemma_first_pane_concat<F>(a: Seq<PaneView<F>>, b: Seq<PaneView<F>>, q: PaneQuery)
    ensures
        first_pane(a + b, q) == match first_pane(a, q) {
            Some(i) => Some(i),
            None => match first_pane(b, q) {
                Some(j) => Some(j + a.len()),
                None => None,
            },
        },
    decreases a.len(),
{
    if a.len() == 0 {
        assert(a + b =~= b);
    } else {
        assert((a + b).drop_first() =~= a.drop_first() + b);
        assert((a + b)[0] == a[0]);
        lemma_first_pane_concat(a.drop_first(), b, q);
    }
}

impl<F> PaneView<F> {
    /// The pane after `w` is added as a new tab and made active.
    pub open spec fn with_tab(self, w: ManagedWindow<F>) -> PaneView<F> {
        PaneView { id: self.id, tabs: self.tabs.push(w), active: self.tabs.len() as usize, zoomed: self.zoomed }
    }

    /// The pane holding `tabs` instead of its own tabs.
    pub open spec fn with_tabs(self, tabs: Seq<ManagedWindow<F>>) -> PaneView<F> {
        PaneView { id: self.id, tabs, active: self.active, zoomed: self.zoomed }
    }

    /// The pane with `a` as its active tab index.
    pub open spec fn with_active(self, a: usize) -> PaneView<F> {
        PaneView { id: self.id, tabs: self.tabs, active: a, zoomed: self.zoomed }
    }

    /// The active tab index after cycling forward (next, wrapping to the
    /// first) or backward (previous, wrapping to the last).
    pub open spec fn cycled(self, forward: bool) -> usize {
        if forward {
            ((self.active + 1) % (self.tabs.len() as int)) as usize
        } else if self.active == 0 {
            (self.tabs.len() - 1) as usize
        } else {
            (self.active - 1) as usize
        }
    }

    /// The pane with its zoom flag flipped.
    pub open spec fn toggled(self) -> PaneView<F> {
        PaneView { id: self.id, tabs: self.tabs, active: self.active, zoomed: !self.zoomed }
    }
}

impl<R, F> TreeView<R, F> {
    pub open spec fn id(self) -> NodeId {
        match self {
            TreeView::Split { id, .. } => id,
            TreeView::Pane(p) => p.id,
        }
    }

    /// The panes, left-to-right and top-to-bottom.
    pub open spec fn leaves(self) -> Seq<PaneView<F>>
        decreases self,
    {
        match self {
            TreeView::Split { first, second, .. } => first.leaves() + second.leaves(),
            TreeView::Pane(p) => seq![p],
        }
    }

    /// All managed windows, pane by pane in order, tab by tab.
    pub open spec fn windows(self) -> Seq<ManagedWindow<F>>
        decreases self,
    {
        match self {
            TreeView::Split { first, second, .. } => first.windows() + second.windows(),
            TreeView::Pane(p) => p.tabs,
        }
    }

    /// The first node in pre-order (node, first subtree, second subtree)
    /// whose identifier is `t`.
    pub open spec fn find(self, t: NodeId) -> Option<TreeView<R, F>>
        decreases self,
    {
        if self.id() == t {
            Some(self)
        } else {
            match self {
                TreeView::Split { first, second, .. } => match first.find(t) {
                    Some(n) => Some(n),
                    None => second.find(t),
                },
                TreeView::Pane(_) => None,
            }
        }
    }

    /// The tree with the node that `find(t)` returns replaced by `sub`.
    pub open spec fn replace_node(self, t: NodeId, sub: TreeView<R, F>) -> TreeView<R, F>
        decreases self,
    {
        if self.id() == t {
            sub
        } else {
            match self {
                TreeView::Split { orientation, ratio, first, second, id } => if first.find(t) is Some {
                    TreeView::Split {
                        orientation,
                        ratio,
                        first: Box::new(first.replace_node(t, sub)),
                        second,
                        id,
                    }
                } else {
                    TreeView::Split {
                        orientation,
                        ratio,
                        first,
                        second: Box::new(second.replace_node(t, sub)),
                        id,
                    }
                },
                TreeView::Pane(_) => self,
            }
        }
    }

    /// The tree after the panes `a` and `b` (found by identifier) exchange
    /// their windows; unchanged unless both are found as panes.
    pub open spec fn swapped_panes(self, a: NodeId, b: NodeId) -> TreeView<R, F> {
        match (self.find(a), self.find(b)) {
            (Some(TreeView::Pane(pa)), Some(TreeView::Pane(pb))) => self.replace_node(
                a,
                TreeView::Pane(pa.with_tabs(pb.tabs)),
            ).replace_node(b, TreeView::Pane(pb.with_tabs(pa.tabs))),
            _ => self,
        }
    }

    /// The tree after the first pane holding window `w` loses that window
    /// (its first tab with that identifier); unchanged if no pane holds it.
    pub open spec fn without_window(self, w: WindowId) -> TreeView<R, F> {
        match self.first(PaneQuery::Window(w)) {
            Some(i) => {
                let p = self.leaves()[i];
                self.replace_leaf(i, TreeView::Pane(p.without_tab(first_tab(p.tabs, w))))
            },
            None => self,
        }
    }

    /// The tree after the first pane holding a window of process `pid`
    /// loses its first such window and empty panes are cleaned up;
    /// unchanged if no pane holds a window of that process.
    pub open spec fn without_pid(self, pid: i32) -> TreeView<R, F> {
        match self.first(PaneQuery::Pid(pid)) {
            Some(i) => {
                let p = self.leaves()[i];
                self.without_window(p.tabs[first_pid_tab(p.tabs, pid)].id).cleaned()
            },
            None => self,
        }
    }

    /// The tree after `w` becomes the active tab of the first pane with
    /// identifier `pane`; unchanged if there is no such pane.
    pub open spec fn stacked(self, pane: NodeId, w: ManagedWindow<F>) -> TreeView<R, F> {
        match self.first(PaneQuery::Id(pane)) {
            Some(i) => self.replace_leaf(i, TreeView::Pane(self.leaves()[i].with_tab(w))),
            None => self,
        }
    }

    /// The tree after the zoom flag of the first pane with identifier
    /// `pane` is flipped; unchanged if there is no such pane.
    pub open spec fn zoom_toggled(self, pane: NodeId) -> TreeView<R, F> {
        match self.first(PaneQuery::Id(pane)) {
            Some(i) => self.replace_leaf(i, TreeView::Pane(self.leaves()[i].toggled())),
            None => self,
        }
    }

    /// The tree after the pane that `find(pane)` returns makes its next
    /// (`forward`) or previous tab active; unchanged unless that node is a
    /// pane with at least two tabs.
    pub open spec fn tab_cycled(self, pane: NodeId, forward: bool) -> TreeView<R, F> {
        match self.find(pane) {
            Some(TreeView::Pane(p)) => if p.tabs.len() >= 2 {
                self.replace_node(pane, TreeView::Pane(p.with_active(p.cycled(forward))))
            } else {
                self
            },
            _ => self,
        }
    }

    /// At most one tab of the tree holds a window with identifier `w`.
    pub open spec fn held_once(self, w: WindowId) -> bool {
        forall|k1: int, m1: int, k2: int, m2: int|
            0 <= k1 < self.leaves().len() && 0 <= m1 < self.leaves()[k1].tabs.len() && 0 <= k2
                < self.leaves().len() && 0 <= m2 < self.leaves()[k2].tabs.len() && (
            #[trigger] self.leaves()[k1].tabs[m1]).id == w && (
            #[trigger] self.leaves()[k2].tabs[m2]).id == w ==> k1 == k2 && m1 == m2
    }

    /// Whether some node (split or pane) has identifier `t`.
    pub open spec fn contains_id(self, t: NodeId) -> bool
        decreases self,
    {
        match self {
            TreeView::Split { first, second, id, .. } => id == t || first.contains_id(t)
                || second.contains_id(t),
            TreeView::Pane(p) => p.id == t,
        }
    }

    /// No two nodes (splits or panes) share an identifier.
    pub open spec fn unique_ids(self) -> bool
        decreases self,
    {
        match self {
            TreeView::Split { first, second, id, .. } => {
                &&& first.unique_ids()
                &&& second.unique_ids()
                &&& !first.contains_id(id)
                &&& !second.contains_id(id)
                &&& forall|u: NodeId| !(first.contains_id(u) && #[trigger] second.contains_id(u))
            },
            TreeView::Pane(_) => true,
        }
    }

    /// Every identifier in the tree is below `n`.
    pub open spec fn ids_below(self, n: u64) -> bool {
        forall|u: NodeId| #[trigger] self.contains_id(u) ==> u.0 < n
    }

    /// The tree with its `i`-th pane replaced by `sub`.
    pub open spec fn replace_leaf(self, i: int, sub: TreeView<R, F>) -> TreeView<R, F>
        decreases self,
    {
        match self {
            TreeView::Split { orientation, ratio, first, second, id } => {
                let n = first.leaves().len();
                if i < n {
                    TreeView::Split {
                        orientation,
                        ratio,
                        first: Box::new(first.replace_leaf(i, sub)),
                        second,
                        id,
                    }
                } else {
                    TreeView::Split {
                        orientation,
                        ratio,
                        first,
                        second: Box::new(second.replace_leaf(i - n, sub)),
                        id,
                    }
                }
            },
            TreeView::Pane(_) => sub,
        }
    }


    /// Whether this is a pane without windows.
    pub open spec fn is_empty_pane(self) -> bool {
        self matches TreeView::Pane(p) && p.tabs.len() == 0
    }

    /// The tree after empty panes are removed and splits left with a single
    /// child collapse into that child.
    pub open spec fn cleaned(self) -> TreeView<R, F>
        decreases self,
    {
        match self {
            TreeView::Split { orientation, ratio, first, second, id } => {
                let f = first.cleaned();
                let s = second.cleaned();
                if f.is_empty_pane() {
                    s
                } else if s.is_empty_pane() {
                    f
                } else {
                    TreeView::Split { orientation, ratio, first: Box::new(f), second: Box::new(s), id }
                }
            },
            TreeView::Pane(_) => self,
        }
    }

    /// The tree with every split ratio set to `r`.
    pub open spec fn equalized(self, r: R) -> TreeView<R, F>
        decreases self,
    {
        match self {
            TreeView::Split { orientation, first, second, id, .. } => TreeView::Split {
                orientation,
                ratio: r,
                first: Box::new(first.equalized(r)),
                second: Box::new(second.equalized(r)),
                id,
            },
            TreeView::Pane(_) => self,
        }
    }

    /// The tree with every split orientation swapped.
    pub open spec fn rotated(self) -> TreeView<R, F>
        decreases self,
    {
        match self {
            TreeView::Split { orientation, ratio, first, second, id } => TreeView::Split {
                orientation: orientation.spec_toggle(),
                ratio,
                first: Box::new(first.rotated()),
                second: Box::new(second.rotated()),
                id,
            },
            TreeView::Pane(_) => self,
        }
    }

    /// The ratio of the first split in pre-order with identifier `t`.
    pub open spec fn split_ratio(self, t: NodeId) -> Option<R>
        decreases self,
    {
        match self {
            TreeView::Split { ratio, first, second, id, .. } => if id == t {
                Some(ratio)
            } else {
                match first.split_ratio(t) {
                    Some(r) => Some(r),
                    None => second.split_ratio(t),
                }
            },
            TreeView::Pane(_) => None,
        }
    }

    /// The tree with the ratio of the first split in pre-order with
    /// identifier `t` set to `r`.
    pub open spec fn with_split_ratio(self, t: NodeId, r: R) -> TreeView<R, F>
        decreases self,
    {
        match self {
            TreeView::Split { orientation, ratio, first, second, id } => if id == t {
                TreeView::Split { orientation, ratio: r, first, second, id }
            } else if first.split_ratio(t) is Some {
                TreeView::Split {
                    orientation,
                    ratio,
                    first: Box::new(first.with_split_ratio(t, r)),
                    second,
                    id,
                }
            } else {
                TreeView::Split {
                    orientation,
                    ratio,
                    first,
                    second: Box::new(second.with_split_ratio(t, r)),
                    id,
                }
            },
            TreeView::Pane(_) => self,
        }
    }

    /// The result of splitting the pane `t` into a pane `a` that keeps its
    /// windows and an empty pane `b`, under a new split `s` with the given
    /// orientation and ratio.  The search visits a node, then its first
    /// subtree, then its second; it stops with no result at a split whose
    /// identifier is `t`.
    pub open spec fn split_at(
        self,
        t: NodeId,
        orientation: Orientation,
        ratio: R,
        a: NodeId,
        b: NodeId,
        s: NodeId,
    ) -> Option<TreeView<R, F>>
        decreases self,
    {
        if self.id() == t {
            match self {
                TreeView::Pane(p) => Some(split_pane_view(p, orientation, ratio, a, b, s)),
                TreeView::Split { .. } => None,
            }
        } else {
            match self {
                TreeView::Split { orientation: o, ratio: r, first, second, id } => match first.split_at(
                    t,
                    orientation,
                    ratio,
                    a,
                    b,
                    s,
                ) {
                    Some(f) => Some(
                        TreeView::Split { orientation: o, ratio: r, first: Box::new(f), second, id },
                    ),
                    None => match second.split_at(t, orientation, ratio, a, b, s) {
                        Some(g) => Some(
                            TreeView::Split { orientation: o, ratio: r, first, second: Box::new(g), id },
                        ),
                        None => None,
                    },
                },
                TreeView::Pane(_) => None,
            }
        }
    }

    /// Index of the first pane satisfying `q`.
    pub open spec fn first(self, q: PaneQuery) -> Option<int> {
        first_pane(self.leaves(), q)
    }
}

/// The split that replaces pane `p`: `a` keeps the windows and the zoom
/// flag of `p` with the first tab active, `b` is empty.
pub open spec fn split_pane_view<R, F>(
    p: PaneView<F>,
    orientation: Orientation,
    ratio: R,
    a: NodeId,
    b: NodeId,
    s: NodeId,
) -> TreeView<R, F> {
    TreeView::Split {
        orientation,
        ratio,
        first: Box::new(TreeView::Pane(PaneView { id: a, tabs: p.tabs, active: 0, zoomed: p.zoomed })),
        second: Box::new(TreeView::Pane(PaneView { id: b, tabs: seq![], active: 0, zoomed: false })),
        id: s,
    }
}

/// The split that replaces pane `p` when window `w` is placed beside it:
/// `a` keeps the windows of `p`, `b` holds only `w`.
pub open spec fn split_pane_view_with<R, F>(
    p: PaneView<F>,
    orientation: Orientation,
    ratio: R,
    a: NodeId,
    b: NodeId,
    s: NodeId,
    w: ManagedWindow<F>,
) -> TreeView<R, F> {
    TreeView::Split {
        orientation,
        ratio,
        first: Box::new(TreeView::Pane(PaneView { id: a, tabs: p.tabs, active: 0, zoomed: p.zoomed })),
        second: Box::new(TreeView::Pane(PaneView { id: b, tabs: seq![w], active: 0, zoomed: false })),
        id: s,
    }
}

/// The split that replaces pane `p` when window `w` is dropped on one of
/// its sides: the window alone in the second pane `b` (`into_second`) or in
/// the first pane `a`, the windows of `p` in the other; the first pane keeps
/// the zoom flag of `p`.
pub open spec fn drop_split_view<R, F>(
    p: PaneView<F>,
    orientation: Orientation,
    ratio: R,
    a: NodeId,
    b: NodeId,
    s: NodeId,
    w: ManagedWindow<F>,
    into_second: bool,
) -> TreeView<R, F> {
    let (first_tabs, second_tabs) = if into_second { (p.tabs, seq![w]) } else { (seq![w], p.tabs) };
    TreeView::Split {
        orientation,
        ratio,
        first: Box::new(TreeView::Pane(PaneView { id: a, tabs: first_tabs, active: 0, zoomed: p.zoomed })),
        second: Box::new(TreeView::Pane(PaneView { id: b, tabs: second_tabs, active: 0, zoomed: false })),
        id: s,
    }
}

/// `k` is the position of the first tab of `tabs` with identifier `w`.
pub open spec fn is_first_tab<F>(tabs: Seq<ManagedWindow<F>>, w: WindowId, k: int) -> bool {
    &&& 0 <= k < tabs.len()
    &&& tabs[k].id == w
    &&& forall|j: int| 0 <= j < k ==> (#[trigger] tabs[j]).id != w
}

/// The position of the first tab of `tabs` with identifier `w`.
pub open spec fn first_tab<F>(tabs: Seq<ManagedWindow<F>>, w: WindowId) -> int {
    choose|k: int| is_first_tab(tabs, w, k)
}

/// The windows of `s` other than those with identifier `w`, in order.
pub open spec fn other_windows<F>(s: Seq<ManagedWindow<F>>, w: WindowId) -> Seq<ManagedWindow<F>>
    decreases s.len(),
{
    if s.len() == 0 {
        Seq::empty()
    } else if s.last().id == w {
        other_windows(s.drop_last(), w)
    } else {
        other_windows(s.drop_last(), w).push(s.last())
    }
}

/// The windows of the panes `s`, pane by pane in order.
pub open spec fn tabs_of<F>(s: Seq<PaneView<F>>) -> Seq<ManagedWindow<F>>
    decreases s.len(),
{
    if s.len() == 0 {
        Seq::empty()
    } else {
        tabs_of(s.drop_last()) + s.last().tabs
    }
}

/// The panes of `s` that hold windows, in order.
pub open spec fn nonempty_panes<F>(s: Seq<PaneView<F>>) -> Seq<PaneView<F>>
    decreases s.len(),
{
    if s.len() == 0 {
        Seq::empty()
    } else if s.last().tabs.len() > 0 {
        nonempty_panes(s.drop_last()).push(s.last())
    } else {
        nonempty_panes(s.drop_last())
    }
}

/// `k` is the position of the first tab of `tabs` whose process is `pid`.
pub open spec fn is_first_pid_tab<F>(tabs: Seq<ManagedWindow<F>>, pid: i32, k: int) -> bool {
    &&& 0 <= k < tabs.len()
    &&& tabs[k].pid == pid
    &&& forall|j: int| 0 <= j < k ==> (#[trigger] tabs[j]).pid != pid
}

/// The position of the first tab of `tabs` whose process is `pid`.
pub open spec fn first_pid_tab<F>(tabs: Seq<ManagedWindow<F>>, pid: i32) -> int {
    choose|k: int| is_first_pid_tab(tabs, pid, k)
}

/// The identifier of the first window of process `pid` in `tabs`.
pub fn first_window_of<F>(tabs: &Vec<ManagedWindow<F>>, pid: i32) -> (r: Option<WindowId>)
    ensures
        match r {
            Some(w) => holds_pid(tabs@, pid) && is_first_pid_tab(tabs@, pid, first_pid_tab(tabs@, pid))
                && w == tabs@[first_pid_tab(tabs@, pid)].id,
            None => !holds_pid(tabs@, pid),
        },
{
    let mut k: usize = 0;
    while k < tabs.len()
        invariant
            k <= tabs.len(),
            forall|j: int| 0 <= j < k ==> (#[trigger] tabs@[j]).pid != pid,
        decreases tabs.len() - k,
    {
        if tabs[k].pid == pid {
            proof {
                assert(is_first_pid_tab(tabs@, pid, k as int));
                assert(holds_pid(tabs@, pid)) by {
                    assert(tabs@[k as int].pid == pid);
                }
                let c = first_pid_tab(tabs@, pid);
                if c < k {
                    assert(tabs@[c].pid != pid);
                }
                if k < c {
                    assert(tabs@[k as int].pid != pid);
                }
            }
            return Some(tabs[k].id);
        }
        k = k + 1;
    }
    None
}

impl<F> PaneView<F> {
    /// The pane after its `k`-th tab is removed; the active index moves to
    /// the last tab if it would fall past the end.
    pub open spec fn without_tab(self, k: int) -> PaneView<F> {
        let tabs = self.tabs.remove(k);
        PaneView {
            id: self.id,
            tabs,
            active: if self.active >= tabs.len() && tabs.len() > 0 {
                (tabs.len() - 1) as usize
            } else {
                self.active
            },
            zoomed: self.zoomed,
        }
    }
}

/// Every tree has at least one pane.
pub proof fn lemma_leaves_nonempty<R, F>(t: TreeView<R, F>)
    ensures
        t.leaves().len() >= 1,
    decreases t,
{
    if let TreeView::Split { first, second, .. } = t {
        lemma_leaves_nonempty(*first);
        lemma_leaves_nonempty(*second);
    }
}

/// Replacing a pane replaces exactly that pane in the sequence of panes.
pub proof fn lemma_replace_leaf_leaves<R, F>(t: TreeView<R, F>, i: int, sub: TreeView<R, F>)
    requires
        0 <= i < t.leaves().len(),
    ensures
        t.replace_leaf(i, sub).leaves() == t.leaves().subrange(0, i) + sub.leaves()
            + t.leaves().subrange(i + 1, t.leaves().len() as int),
    decreases t,
{
    match t {
        TreeView::Split { first, second, .. } => {
            let n = first.leaves().len() as int;
            let fl = first.leaves();
            let sl = second.leaves();
            if i < n {
                lemma_replace_leaf_leaves(*first, i, sub);
                assert((fl + sl).subrange(0, i) =~= fl.subrange(0, i));
                assert((fl + sl).subrange(i + 1, (fl + sl).len() as int) =~= fl.subrange(
                    i + 1,
                    n,
                ) + sl);
            } else {
                lemma_replace_leaf_leaves(*second, i - n, sub);
                assert((fl + sl).subrange(0, i) =~= fl + sl.subrange(0, i - n));
                assert((fl + sl).subrange(i + 1, (fl + sl).len() as int) =~= sl.subrange(
                    i - n + 1,
                    sl.len() as int,
                ));
            }
        },
        TreeView::Pane(_) => {
            assert(t.leaves().subrange(0, i) =~= Seq::<PaneView<F>>::empty());
            assert(t.leaves().subrange(i + 1, 1) =~= Seq::<PaneView<F>>::empty());
        },
    }
}

// ---------------------------------------------------------------------------
// The executable tree
// ---------------------------------------------------------------------------

/// A binary split tree for tiling layout.
#[derive(Debug)]
pub enum Node<R, F> {
    Split {
        orientation: Orientation,
        ratio: R,
        first: Box<Node<R, F>>,
        second: Box<Node<R, F>>,
        id: NodeId,
    },
    Pane {
        tabs: Vec<ManagedWindow<F>>,
        active: usize,
        id: NodeId,
        /// If true, this pane is currently zoomed (maximized).
        zoomed: bool,
    },
}

impl<R, F> View for Node<R, F> {
    type V = TreeView<R, F>;

    open spec fn view(&self) -> TreeView<R, F>
        decreases self,
    {
        match self {
            Node::Split { orientation, ratio, first, second, id } => TreeView::Split {
                orientation: *orientation,
                ratio: *ratio,
                first: Box::new((**first).view()),
                second: Box::new((**second).view()),
                id: *id,
            },
            Node::Pane { tabs, active, id, zoomed } => TreeView::Pane(
                PaneView { id: *id, tabs: tabs@, active: *active, zoomed: *zoomed },
            ),
        }
    }
}

impl<R, F> Node<R, F> {
    /// Create a new empty pane.
    pub fn new_pane(ids: &mut IdSource) -> (n: Self)
        ensures
            n@ == TreeView::<R, F>::Pane(
                PaneView { id: NodeId(old(ids).next_node()), tabs: seq![], active: 0, zoomed: false },
            ),
            final(ids).next_node() == crate::ids::bump(old(ids).next_node()),
            final(ids).next_window() == old(ids).next_window(),
    {
        let n = Node::Pane { tabs: Vec::new(), active: 0, id: NodeId::next(ids), zoomed: false };
        assert(n@ matches TreeView::Pane(p) && p.tabs =~= seq![]);
        n
    }

    /// Create a new pane with one window.
    pub fn new_pane_with(window: ManagedWindow<F>, ids: &mut IdSource) -> (n: Self)
        ensures
            n@ == TreeView::<R, F>::Pane(
                PaneView {
                    id: NodeId(old(ids).next_node()),
                    tabs: seq![window],
                    active: 0,
                    zoomed: false,
                },
            ),
            final(ids).next_node() == crate::ids::bump(old(ids).next_node()),
            final(ids).next_window() == old(ids).next_window(),
    {
        let id = NodeId::next(ids);
        let mut tabs = Vec::new();
        tabs.push(window);
        let n = Node::Pane { tabs, active: 0, id, zoomed: false };
        assert(n@ matches TreeView::Pane(p) && p.tabs =~= seq![window]);
        n
    }

    /// Get the node ID.
    pub fn id(&self) -> (r: NodeId)
        ensures
            r == self@.id(),
    {
        match self {
            Node::Split { id, .. } => *id,
            Node::Pane { id, .. } => *id,
        }
    }

    /// Count panes.
    pub fn pane_count(&self) -> (r: usize)
        requires
            self@.leaves().len() <= usize::MAX,
        ensures
            r == self@.leaves().len(),
        decreases self,
    {
        match self {
            Node::Pane { .. } => 1,
            Node::Split { first, second, .. } => {
                proof {
                    lemma_leaves_nonempty(first@);
                    lemma_leaves_nonempty(second@);
                }
                first.pane_count() + second.pane_count()
            },
        }
    }

    /// Count total windows across all panes.
    pub fn window_count(&self) -> (r: usize)
        requires
            self@.windows().len() <= usize::MAX,
        ensures
            r == self@.windows().len(),
        decreases self,
    {
        match self {
            Node::Pane { tabs, .. } => tabs.len(),
            Node::Split { first, second, .. } => first.window_count() + second.window_count(),
        }
    }
}


/// Whether `q` holds of the pane with these fields.
fn pane_holds<F>(q: PaneQuery, tabs: &Vec<ManagedWindow<F>>, id: NodeId, zoomed: bool) -> (r: bool)
    ensures
        r == q.holds(PaneView { id, tabs: tabs@, active: 0, zoomed }),
{
    match q {
        PaneQuery::Id(t) => id == t,
        PaneQuery::Zoomed => zoomed,
        PaneQuery::Empty => tabs.len() == 0,
        PaneQuery::Window(w) => {
            let mut k: usize = 0;
            while k < tabs.len()
                invariant
                    k <= tabs.len(),
                    q == PaneQuery::Window(w),
                    forall|j: int| 0 <= j < k ==> (#[trigger] tabs@[j]).id != w,
                decreases tabs.len() - k,
            {
                if tabs[k].id == w {
                    assert(tabs@[k as int].id == w);
                    assert(holds_window(tabs@, w));
                    return true;
                }
                k = k + 1;
            }
            false
        },
        PaneQuery::Pid(pid) => {
            let mut k: usize = 0;
            while k < tabs.len()
                invariant
                    k <= tabs.len(),
                    q == PaneQuery::Pid(pid),
                    forall|j: int| 0 <= j < k ==> (#[trigger] tabs@[j]).pid != pid,
                decreases tabs.len() - k,
            {
                if tabs[k].pid == pid {
                    assert(tabs@[k as int].pid == pid);
                    assert(holds_pid(tabs@, pid));
                    return true;
                }
                k = k + 1;
            }
            false
        },
    }
}

impl<R, F> Node<R, F> {
    /// A pane value used while a node is being rebuilt.
    fn placeholder() -> (n: Self)
        ensures
            n@ == TreeView::<R, F>::Pane(PaneView { id: NodeId(0), tabs: seq![], active: 0, zoomed: false }),
            n@.is_empty_pane(),
    {
        let n = Node::Pane { tabs: Vec::new(), active: 0, id: NodeId(0), zoomed: false };
        assert(n@ matches TreeView::Pane(p) && p.tabs =~= seq![]);
        n
    }

    /// Whether this node is a pane without windows.
    pub fn is_empty_pane(&self) -> (r: bool)
        ensures
            r == self@.is_empty_pane(),
    {
        match self {
            Node::Pane { tabs, .. } => tabs.len() == 0,
            Node::Split { .. } => false,
        }
    }

    /// Find a node by ID: the first node in pre-order with that identifier.
    pub fn find(&self, target: NodeId) -> (r: Option<&Node<R, F>>)
        ensures
            match self@.find(target) {
                Some(n) => r is Some && r->0@ == n,
                None => r is None,
            },
        decreases self,
    {
        if self.id() == target {
            return Some(self);
        }
        match self {
            Node::Split { first, second, .. } => match first.find(target) {
                Some(n) => Some(n),
                None => second.find(target),
            },
            Node::Pane { .. } => None,
        }
    }

    /// Find a mutable reference to a node by ID: the first node in
    /// pre-order with that identifier.  Whatever the caller leaves in that
    /// node takes its place in the tree.
    pub fn find_mut(&mut self, target: NodeId) -> (r: Option<&mut Node<R, F>>)
        ensures
            match old(self)@.find(target) {
                Some(n) => r is Some && (*r->0)@ == n && final(self)@ == old(self)@.replace_node(
                    target,
                    (*final(r->0))@,
                ),
                None => r is None && final(self)@ == old(self)@,
            },
        decreases *old(self),
    {
        if self.id() == target {
            return Some(self);
        }
        match self {
            Node::Split { first, second, .. } => {
                if first.find(target).is_some() {
                    first.find_mut(target)
                } else {
                    second.find_mut(target)
                }
            },
            Node::Pane { .. } => None,
        }
    }

    /// Get all pane node IDs in order (left-to-right, top-to-bottom).
    pub fn pane_ids(&self) -> (r: Vec<NodeId>)
        ensures
            r@ == self@.leaves().map_values(|p: PaneView<F>| p.id),
        decreases self,
    {
        match self {
            Node::Pane { id, .. } => {
                let mut v = Vec::new();
                v.push(*id);
                proof {
                    assert(self@.leaves().map_values(|p: PaneView<F>| p.id) =~= seq![*id]);
                }
                v
            },
            Node::Split { first, second, .. } => {
                let mut ids = first.pane_ids();
                let mut more = second.pane_ids();
                ids.append(&mut more);
                proof {
                    assert(self@.leaves().map_values(|p: PaneView<F>| p.id) =~= first@.leaves().map_values(
                        |p: PaneView<F>| p.id,
                    ) + second@.leaves().map_values(|p: PaneView<F>| p.id));
                }
                ids
            },
        }
    }

    /// Get all managed windows.
    pub fn all_windows(&self) -> (r: Vec<&ManagedWindow<F>>)
        ensures
            r@.len() == self@.windows().len(),
            forall|i: int| 0 <= i < r@.len() ==> *(#[trigger] r@[i]) == self@.windows()[i],
        decreases self,
    {
        match self {
            Node::Pane { tabs, .. } => {
                let mut v: Vec<&ManagedWindow<F>> = Vec::new();
                let mut k: usize = 0;
                while k < tabs.len()
                    invariant
                        k <= tabs.len(),
                        v@.len() == k,
                        forall|i: int| 0 <= i < k ==> *(#[trigger] v@[i]) == tabs@[i],
                    decreases tabs.len() - k,
                {
                    v.push(&tabs[k]);
                    k = k + 1;
                }
                v
            },
            Node::Split { first, second, .. } => {
                let mut wins = first.all_windows();
                let mut more = second.all_windows();
                let ghost w1 = wins@;
                let ghost w2 = more@;
                wins.append(&mut more);
                proof {
                    assert forall|i: int| 0 <= i < wins@.len() implies *(#[trigger] wins@[i])
                        == self@.windows()[i] by {
                        if i >= w1.len() {
                            assert(wins@[i] == w2[i - w1.len()]);
                        } else {
                            assert(wins@[i] == w1[i]);
                        }
                    }
                }
                wins
            },
        }
    }

    /// The identifier of the root split, if the root is a split.
    pub fn first_split_id(&self) -> (r: Option<NodeId>)
        ensures
            r == match self@ {
                TreeView::Split { id, .. } => Some(id),
                TreeView::Pane(_) => None::<NodeId>,
            },
    {
        match self {
            Node::Split { id, .. } => Some(*id),
            Node::Pane { .. } => None,
        }
    }

    /// The active window of the pane found by `find(pane_id)`, if that node
    /// is a pane whose active index is in range.
    pub fn active_window(&self, pane_id: NodeId) -> (r: Option<&ManagedWindow<F>>)
        ensures
            match self@.find(pane_id) {
                Some(TreeView::Pane(p)) => if p.active < p.tabs.len() {
                    r is Some && *r->0 == p.tabs[p.active as int]
                } else {
                    r is None
                },
                _ => r is None,
            },
    {
        match self.find(pane_id) {
            Some(Node::Pane { tabs, active, .. }) => {
                if *active < tabs.len() {
                    Some(&tabs[*active])
                } else {
                    None
                }
            },
            _ => None,
        }
    }

    /// Remove empty panes and collapse single-child splits.
    pub fn cleanup(&mut self)
        ensures
            final(self)@ == old(self)@.cleaned(),
        decreases *old(self),
    {
        match self {
            Node::Pane { .. } => {},
            Node::Split { first, second, .. } => {
                first.cleanup();
                second.cleanup();
                if first.is_empty_pane() {
                    let mut tmp = Node::placeholder();
                    std::mem::swap(&mut tmp, &mut **second);
                    *self = tmp;
                } else if second.is_empty_pane() {
                    let mut tmp = Node::placeholder();
                    std::mem::swap(&mut tmp, &mut **first);
                    *self = tmp;
                }
            },
        }
    }

    /// Rotate the tree: swap all orientations.
    pub fn rotate_tree(&mut self)
        ensures
            final(self)@ == old(self)@.rotated(),
        decreases *old(self),
    {
        match self {
            Node::Pane { .. } => {},
            Node::Split { orientation, first, second, .. } => {
                *orientation = orientation.toggle();
                first.rotate_tree();
                second.rotate_tree();
            },
        }
    }

    /// Remove a window by ID from the first pane (in order) that holds it.
    /// If the pane becomes empty, the caller should clean up.
    /// Returns the removed window if found.
    pub fn remove_window(&mut self, window_id: WindowId) -> (r: Option<ManagedWindow<F>>)
        ensures
            match old(self)@.first(PaneQuery::Window(window_id)) {
                Some(i) => {
                    let p = old(self)@.leaves()[i];
                    let k = first_tab(p.tabs, window_id);
                    &&& is_first_tab(p.tabs, window_id, k)
                    &&& r == Some(p.tabs[k])
                    &&& final(self)@ == old(self)@.replace_leaf(i, TreeView::Pane(p.without_tab(k)))
                },
                None => r is None && final(self)@ == old(self)@,
            },
        decreases *old(self),
    {
        match self {
            Node::Pane { tabs, active, id, zoomed } => {
                let ghost pv = PaneView { id: *id, tabs: tabs@, active: *active, zoomed: *zoomed };
                proof {
                    lemma_first_pane_single(pv, PaneQuery::Window(window_id));
                }
                let mut k: usize = 0;
                while k < tabs.len() && tabs[k].id != window_id
                    invariant
                        k <= tabs.len(),
                        forall|j: int| 0 <= j < k ==> (#[trigger] tabs@[j]).id != window_id,
                    decreases tabs.len() - k,
                {
                    k = k + 1;
                }
                if k < tabs.len() {
                    proof {
                        assert(is_first_tab(tabs@, window_id, k as int));
                        assert(holds_window(tabs@, window_id)) by {
                            assert(tabs@[k as int].id == window_id);
                        }
                        let c = first_tab(tabs@, window_id);
                        assert(is_first_tab(tabs@, window_id, c));
                        if c < k {
                            assert(tabs@[c].id != window_id);
                        }
                        if k < c {
                            assert(tabs@[k as int].id != window_id);
                        }
                    }
                    let win = tabs.remove(k);
                    if *active >= tabs.len() && tabs.len() > 0 {
                        *active = tabs.len() - 1;
                    }
                    Some(win)
                } else {
                    None
                }
            },
            Node::Split { first, second, .. } => {
                proof {
                    let q = PaneQuery::Window(window_id);
                    lemma_first_pane_concat(first@.leaves(), second@.leaves(), q);
                    lemma_first_pane(first@.leaves(), q);
                    lemma_first_pane(second@.leaves(), q);
                }
                match first.remove_window(window_id) {
                    Some(w) => Some(w),
                    None => second.remove_window(window_id),
                }
            },
        }
    }

    /// Take the active tab out of the first pane with identifier `pane_id`;
    /// none if there is no such pane or its active index names no tab.
    pub(crate) fn take_active(&mut self, pane_id: NodeId) -> (r: Option<ManagedWindow<F>>)
        ensures
            match old(self)@.first(PaneQuery::Id(pane_id)) {
                Some(i) => {
                    let p = old(self)@.leaves()[i];
                    if p.active < p.tabs.len() {
                        &&& r == Some(p.tabs[p.active as int])
                        &&& final(self)@ == old(self)@.replace_leaf(
                            i,
                            TreeView::Pane(p.without_tab(p.active as int)),
                        )
                    } else {
                        r is None && final(self)@ == old(self)@
                    }
                },
                None => r is None && final(self)@ == old(self)@,
            },
        decreases *old(self),
    {
        match self {
            Node::Pane { tabs, active, id, zoomed } => {
                proof {
                    lemma_first_pane_single(
                        PaneView { id: *id, tabs: tabs@, active: *active, zoomed: *zoomed },
                        PaneQuery::Id(pane_id),
                    );
                }
                if *id == pane_id && *active < tabs.len() {
                    let win = tabs.remove(*active);
                    if *active >= tabs.len() && tabs.len() > 0 {
                        *active = tabs.len() - 1;
                    }
                    Some(win)
                } else {
                    None
                }
            },
            Node::Split { first, second, .. } => {
                proof {
                    let q = PaneQuery::Id(pane_id);
                    lemma_first_pane_concat(first@.leaves(), second@.leaves(), q);
                    lemma_first_pane(first@.leaves(), q);
                    lemma_first_pane(second@.leaves(), q);
                }
                if first.find_first(PaneQuery::Id(pane_id)).is_some() {
                    first.take_active(pane_id)
                } else {
                    second.take_active(pane_id)
                }
            },
        }
    }

    /// Cycle the active tab of the pane found by `pane_id`.  Returns the new
    /// active index, or None if the node is not a pane or has fewer than 2
    /// tabs.
    pub(crate) fn cycle_active(&mut self, pane_id: NodeId, forward: bool) -> (r: Option<usize>)
        requires
            old(self)@.find(pane_id) matches Some(TreeView::Pane(p)) ==> (forward && p.tabs.len() >= 2
                ==> p.active < usize::MAX),
        ensures
            match old(self)@.find(pane_id) {
                Some(TreeView::Pane(p)) => if p.tabs.len() < 2 {
                    r is None && final(self)@ == old(self)@
                } else {
                    &&& r == Some(p.cycled(forward))
                    &&& final(self)@ == old(self)@.replace_node(
                        pane_id,
                        TreeView::Pane(p.with_active(p.cycled(forward))),
                    )
                },
                _ => r is None && final(self)@ == old(self)@,
            },
        decreases *old(self),
    {
        if self.id() == pane_id {
            match self {
                Node::Pane { tabs, active, .. } => {
                    if tabs.len() < 2 {
                        return None;
                    }
                    if forward {
                        *active = (*active + 1) % tabs.len();
                    } else {
                        *active = if *active == 0 {
                            tabs.len() - 1
                        } else {
                            *active - 1
                        };
                    }
                    return Some(*active);
                },
                Node::Split { .. } => {
                    return None;
                },
            }
        }
        match self {
            Node::Split { first, second, .. } => {
                if first.find(pane_id).is_some() {
                    first.cycle_active(pane_id, forward)
                } else {
                    second.cycle_active(pane_id, forward)
                }
            },
            Node::Pane { .. } => None,
        }
    }

    /// Give the pane found by `pane_id` the windows `tabs`; returns the
    /// windows it held.
    pub(crate) fn replace_tabs(&mut self, pane_id: NodeId, tabs: Vec<ManagedWindow<F>>) -> (r: Vec<
        ManagedWindow<F>,
    >)
        requires
            old(self)@.find(pane_id) matches Some(TreeView::Pane(_)),
        ensures
            match old(self)@.find(pane_id) {
                Some(TreeView::Pane(p)) => {
                    &&& r@ == p.tabs
                    &&& final(self)@ == old(self)@.replace_node(pane_id, TreeView::Pane(p.with_tabs(tabs@)))
                },
                _ => false,
            },
        decreases *old(self),
    {
        if self.id() == pane_id {
            match self {
                Node::Pane { tabs: own, .. } => {
                    let mut given = tabs;
                    std::mem::swap(own, &mut given);
                    return given;
                },
                Node::Split { .. } => {
                    return Vec::new();
                },
            }
        }
        match self {
            Node::Split { first, second, .. } => {
                if first.find(pane_id).is_some() {
                    first.replace_tabs(pane_id, tabs)
                } else {
                    second.replace_tabs(pane_id, tabs)
                }
            },
            Node::Pane { .. } => Vec::new(),
        }
    }

    /// Identifier of the first pane (in order) that satisfies `q`.
    pub(crate) fn find_first(&self, q: PaneQuery) -> (r: Option<NodeId>)
        ensures
            r == match self@.first(q) {
                Some(i) => Some(self@.leaves()[i].id),
                None => None::<NodeId>,
            },
        decreases self,
    {
        match self {
            Node::Pane { tabs, id, zoomed, active } => {
                proof {
                    lemma_first_pane_single(PaneView { id: *id, tabs: tabs@, active: *active, zoomed: *zoomed }, q);
                }
                if pane_holds(q, tabs, *id, *zoomed) {
                    Some(*id)
                } else {
                    None
                }
            },
            Node::Split { first, second, .. } => {
                proof {
                    lemma_first_pane_concat(first@.leaves(), second@.leaves(), q);
                    lemma_first_pane(first@.leaves(), q);
                    lemma_first_pane(second@.leaves(), q);
                }
                match first.find_first(q) {
                    Some(r) => Some(r),
                    None => second.find_first(q),
                }
            },
        }
    }

    /// Find the pane containing a given window.
    pub fn find_pane_with_window(&self, window_id: WindowId) -> (r: Option<NodeId>)
        ensures
            r == match self@.first(PaneQuery::Window(window_id)) {
                Some(i) => Some(self@.leaves()[i].id),
                None => None::<NodeId>,
            },
    {
        self.find_first(PaneQuery::Window(window_id))
    }

    /// Find the first pane holding a window of process `pid`.
    pub fn find_pane_by_pid(&self, pid: i32) -> (r: Option<NodeId>)
        ensures
            r == match self@.first(PaneQuery::Pid(pid)) {
                Some(i) => Some(self@.leaves()[i].id),
                None => None::<NodeId>,
            },
    {
        self.find_first(PaneQuery::Pid(pid))
    }

    /// The first zoomed pane, if any.
    pub fn has_zoomed_pane(&self) -> (r: Option<NodeId>)
        ensures
            r == match self@.first(PaneQuery::Zoomed) {
                Some(i) => Some(self@.leaves()[i].id),
                None => None::<NodeId>,
            },
    {
        self.find_first(PaneQuery::Zoomed)
    }

    /// Add a window as a tab to the specified pane; it becomes the active tab.
    /// The window goes to the first pane (in order) with that identifier.
    pub fn stack_window(&mut self, pane_id: NodeId, window: ManagedWindow<F>) -> (r: bool)
        ensures
            r == old(self)@.first(PaneQuery::Id(pane_id)) is Some,
            final(self)@ == old(self)@.stacked(pane_id, window),
        decreases *old(self),
    {
        match self {
            Node::Pane { tabs, active, id, zoomed } => {
                proof {
                    lemma_first_pane_single(PaneView { id: *id, tabs: tabs@, active: *active, zoomed: *zoomed }, PaneQuery::Id(pane_id));
                }
                if *id == pane_id {
                    tabs.push(window);
                    *active = tabs.len() - 1;
                    true
                } else {
                    false
                }
            },
            Node::Split { first, second, .. } => {
                proof {
                    lemma_first_pane_concat(first@.leaves(), second@.leaves(), PaneQuery::Id(pane_id));
                    lemma_first_pane(first@.leaves(), PaneQuery::Id(pane_id));
                    lemma_first_pane(second@.leaves(), PaneQuery::Id(pane_id));
                }
                if first.find_first(PaneQuery::Id(pane_id)).is_some() {
                    first.stack_window(pane_id, window)
                } else {
                    second.stack_window(pane_id, window)
                }
            },
        }
    }

    /// Toggle the zoom state of the first pane with identifier `pane_id`.
    pub fn toggle_zoom(&mut self, pane_id: NodeId) -> (r: bool)
        ensures
            r == old(self)@.first(PaneQuery::Id(pane_id)) is Some,
            final(self)@ == old(self)@.zoom_toggled(pane_id),
        decreases *old(self),
    {
        match self {
            Node::Pane { id, zoomed, tabs, active } => {
                proof {
                    lemma_first_pane_single(PaneView { id: *id, tabs: tabs@, active: *active, zoomed: *zoomed }, PaneQuery::Id(pane_id));
                }
                if *id == pane_id {
                    *zoomed = !*zoomed;
                    true
                } else {
                    false
                }
            },
            Node::Split { first, second, .. } => {
                proof {
                    lemma_first_pane_concat(first@.leaves(), second@.leaves(), PaneQuery::Id(pane_id));
                    lemma_first_pane(first@.leaves(), PaneQuery::Id(pane_id));
                    lemma_first_pane(second@.leaves(), PaneQuery::Id(pane_id));
                }
                first.toggle_zoom(pane_id) || second.toggle_zoom(pane_id)
            },
        }
    }
}

impl<R: Copy, F> Node<R, F> {
    /// Split a pane into two. The existing pane content goes to `first`, and a new
    /// empty pane becomes `second`.
    ///
    /// Returns `(first_id, second_id)` — the IDs of the two resulting panes.
    /// `first` retains the original content; `second` is empty.  The three
    /// identifiers (first, second, then the split) are taken from `ids`.
    pub fn split_pane(
        &mut self,
        pane_id: NodeId,
        orientation: Orientation,
        ratio: R,
        ids: &mut IdSource,
    ) -> (r: Option<(NodeId, NodeId)>)
        ensures
            ({
                let n = old(ids).next_node();
                let a = NodeId(n);
                let b = NodeId(bump(n));
                let s = NodeId(bump(bump(n)));
                match old(self)@.split_at(pane_id, orientation, ratio, a, b, s) {
                    Some(t) => {
                        &&& r == Some((a, b))
                        &&& final(self)@ == t
                        &&& final(ids).next_node() == bump(bump(bump(n)))
                    },
                    None => {
                        &&& r is None
                        &&& final(self)@ == old(self)@
                        &&& final(ids).next_node() == n
                    },
                }
            }),
            final(ids).next_window() == old(ids).next_window(),
        decreases *old(self),
    {
        if self.id() == pane_id {
            match self {
                Node::Pane { tabs, zoomed, .. } => {
                    let mut existing_tabs = Vec::new();
                    std::mem::swap(&mut existing_tabs, tabs);
                    let existing_zoomed = *zoomed;
                    let first_id = NodeId::next(ids);
                    let second_id = NodeId::next(ids);
                    let first = Node::Pane {
                        tabs: existing_tabs,
                        active: 0,
                        id: first_id,
                        zoomed: existing_zoomed,
                    };
                    let no_tabs: Vec<ManagedWindow<F>> = Vec::new();
                    assert(no_tabs@ =~= seq![]);
                    let second = Node::Pane { tabs: no_tabs, active: 0, id: second_id, zoomed: false };
                    let split_id = NodeId::next(ids);
                    let ghost fv = first@;
                    let ghost sv = second@;
                    assert(fv == TreeView::<R, F>::Pane(
                        PaneView { id: first_id, tabs: existing_tabs@, active: 0, zoomed: existing_zoomed },
                    ));
                    *self = Node::Split {
                        orientation,
                        ratio,
                        first: Box::new(first),
                        second: Box::new(second),
                        id: split_id,
                    };
                    assert(self@ == TreeView::Split {
                        orientation,
                        ratio,
                        first: Box::new(fv),
                        second: Box::new(sv),
                        id: split_id,
                    });
                    return Some((first_id, second_id));
                },
                Node::Split { .. } => {
                    return None;
                },
            }
        }
        match self {
            Node::Split { first, second, .. } => match first.split_pane(pane_id, orientation, ratio, ids) {
                Some(r) => Some(r),
                None => second.split_pane(pane_id, orientation, ratio, ids),
            },
            Node::Pane { .. } => None,
        }
    }

    /// Set every split ratio to `ratio` (the even ratio).
    pub fn equalize_all(&mut self, ratio: R)
        ensures
            final(self)@ == old(self)@.equalized(ratio),
        decreases *old(self),
    {
        match self {
            Node::Pane { .. } => {},
            Node::Split { ratio: r, first, second, .. } => {
                *r = ratio;
                first.equalize_all(ratio);
                second.equalize_all(ratio);
            },
        }
    }

    /// The ratio of the first split (in pre-order) with identifier `split_id`.
    pub fn split_ratio(&self, split_id: NodeId) -> (r: Option<R>)
        ensures
            r == self@.split_ratio(split_id),
        decreases self,
    {
        match self {
            Node::Split { id, ratio, first, second, .. } => {
                if *id == split_id {
                    Some(*ratio)
                } else {
                    match first.split_ratio(split_id) {
                        Some(r) => Some(r),
                        None => second.split_ratio(split_id),
                    }
                }
            },
            Node::Pane { .. } => None,
        }
    }

    /// Set the ratio of the first split (in pre-order) with identifier
    /// `split_id`; false if there is no such split.
    pub fn set_split_ratio(&mut self, split_id: NodeId, ratio: R) -> (r: bool)
        ensures
            r == old(self)@.split_ratio(split_id) is Some,
            final(self)@ == old(self)@.with_split_ratio(split_id, ratio),
        decreases *old(self),
    {
        match self {
            Node::Split { id, ratio: r, first, second, .. } => {
                if *id == split_id {
                    *r = ratio;
                    true
                } else if first.split_ratio(split_id).is_some() {
                    first.set_split_ratio(split_id, ratio)
                } else {
                    second.set_split_ratio(split_id, ratio)
                }
            },
            Node::Pane { .. } => false,
        }
    }
}

} // verus!
