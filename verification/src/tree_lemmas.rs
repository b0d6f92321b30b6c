//! Facts about the tree model used by the proofs of the tree operations.

use vstd::prelude::*;
use crate::ids::{bump, NodeId, WindowId};
use crate::types::ManagedWindow;
use crate::tree::{
    first_pane, holds_window, lemma_first_pane, lemma_first_pane_concat, lemma_first_pane_single,
    lemma_leaves_nonempty, lemma_replace_leaf_leaves, nonempty_panes, other_windows, split_pane_view,
    split_pane_view_with, tabs_of, PaneQuery, PaneView, TreeView,
};
use crate::types::Orientation;

verus! {

/// Every pane's identifier occurs in the tree.
pub proof fn lemma_leaf_contained<R, F>(t: TreeView<R, F>, k: int)
    requires
        0 <= k < t.leaves().len(),
    ensures
        t.contains_id(t.leaves()[k].id),
    decreases t,
{
    if let TreeView::Split { first, second, .. } = t {
        let n = first.leaves().len() as int;
        if k < n {
            lemma_leaf_contained(*first, k);
        } else {
            lemma_leaf_contained(*second, k - n);
        }
    }
}

/// A found node carries the identifier searched for.
pub proof fn lemma_find_id<R, F>(t: TreeView<R, F>, p: NodeId)
    ensures
        t.find(p) matches Some(n) ==> n.id() == p,
    decreases t,
{
    if t.id() != p {
        if let TreeView::Split { first, second, .. } = t {
            lemma_find_id(*first, p);
            lemma_find_id(*second, p);
        }
    }
}

/// The search finds nothing exactly when no node has the identifier.
pub proof fn lemma_find_none<R, F>(t: TreeView<R, F>, p: NodeId)
    ensures
        t.find(p) is None <==> !t.contains_id(p),
    decreases t,
{
    if let TreeView::Split { first, second, .. } = t {
        lemma_find_none(*first, p);
        lemma_find_none(*second, p);
    }
}

/// If no node has identifier `p`, no pane has it.
pub proof fn lemma_absent_no_pane<R, F>(t: TreeView<R, F>, p: NodeId)
    requires
        !t.contains_id(p),
    ensures
        t.first(PaneQuery::Id(p)) is None,
{
    lemma_first_pane(t.leaves(), PaneQuery::Id(p));
    if let Some(k) = t.first(PaneQuery::Id(p)) {
        lemma_leaf_contained(t, k);
    }
}

/// A pane found by identifier is the first pane with that identifier.
pub proof fn lemma_find_pane<R, F>(t: TreeView<R, F>, p: NodeId, pv: PaneView<F>)
    requires
        t.find(p) == Some(TreeView::<R, F>::Pane(pv)),
    ensures
        t.first(PaneQuery::Id(p)) matches Some(k) && 0 <= k < t.leaves().len() && t.leaves()[k]
            == pv,
    decreases t,
{
    let q = PaneQuery::Id(p);
    match t {
        TreeView::Pane(x) => {
            lemma_first_pane_single(x, q);
        },
        TreeView::Split { first, second, .. } => {
            lemma_first_pane_concat(first.leaves(), second.leaves(), q);
            lemma_first_pane(first.leaves(), q);
            lemma_first_pane(second.leaves(), q);
            if first.find(p) is Some {
                lemma_find_pane(*first, p, pv);
            } else {
                lemma_find_none(*first, p);
                lemma_absent_no_pane(*first, p);
                lemma_find_pane(*second, p, pv);
            }
        },
    }
}

/// Splitting at an identifier that no node has does nothing.
pub proof fn lemma_split_absent<R, F>(
    t: TreeView<R, F>,
    p: NodeId,
    o: Orientation,
    r: R,
    a: NodeId,
    b: NodeId,
    s: NodeId,
)
    requires
        !t.contains_id(p),
    ensures
        t.split_at(p, o, r, a, b, s) is None,
    decreases t,
{
    if let TreeView::Split { first, second, .. } = t {
        lemma_split_absent(*first, p, o, r, a, b, s);
        lemma_split_absent(*second, p, o, r, a, b, s);
    }
}

/// Splitting at the identifier of a found pane replaces exactly that pane.
pub proof fn lemma_find_pane_split<R, F>(
    t: TreeView<R, F>,
    p: NodeId,
    pv: PaneView<F>,
    o: Orientation,
    r: R,
    a: NodeId,
    b: NodeId,
    s: NodeId,
)
    requires
        t.find(p) == Some(TreeView::<R, F>::Pane(pv)),
    ensures
        t.first(PaneQuery::Id(p)) matches Some(k) && t.split_at(p, o, r, a, b, s) == Some(
            t.replace_leaf(k, split_pane_view(pv, o, r, a, b, s)),
        ),
    decreases t,
{
    let q = PaneQuery::Id(p);
    lemma_find_pane(t, p, pv);
    match t {
        TreeView::Pane(x) => {
            lemma_first_pane_single(x, q);
        },
        TreeView::Split { first, second, .. } => {
            lemma_first_pane_concat(first.leaves(), second.leaves(), q);
            lemma_first_pane(first.leaves(), q);
            lemma_first_pane(second.leaves(), q);
            if first.find(p) is Some {
                lemma_find_pane_split(*first, p, pv, o, r, a, b, s);
            } else {
                lemma_find_none(*first, p);
                lemma_absent_no_pane(*first, p);
                lemma_split_absent(*first, p, o, r, a, b, s);
                lemma_find_pane_split(*second, p, pv, o, r, a, b, s);
            }
        },
    }
}

/// With unique identifiers, searching a pane's identifier finds that pane,
/// and it is the first pane with that identifier.
pub proof fn lemma_unique_find<R, F>(t: TreeView<R, F>, k: int)
    requires
        t.unique_ids(),
        0 <= k < t.leaves().len(),
    ensures
        t.find(t.leaves()[k].id) == Some(TreeView::<R, F>::Pane(t.leaves()[k])),
        t.first(PaneQuery::Id(t.leaves()[k].id)) == Some(k),
    decreases t,
{
    let p = t.leaves()[k].id;
    let q = PaneQuery::Id(p);
    match t {
        TreeView::Pane(x) => {
            lemma_first_pane_single(x, q);
        },
        TreeView::Split { first, second, id, .. } => {
            let n = first.leaves().len() as int;
            lemma_first_pane_concat(first.leaves(), second.leaves(), q);
            if k < n {
                lemma_unique_find(*first, k);
                lemma_leaf_contained(*first, k);
            } else {
                lemma_unique_find(*second, k - n);
                lemma_leaf_contained(*second, k - n);
                lemma_find_none(*first, p);
                lemma_absent_no_pane(*first, p);
            }
        },
    }
}

/// Replacing a pane by a pane with the same identifier keeps the
/// identifiers of the tree and their uniqueness.
pub proof fn lemma_replace_same_id<R, F>(t: TreeView<R, F>, i: int, p: PaneView<F>)
    requires
        0 <= i < t.leaves().len(),
        p.id == t.leaves()[i].id,
    ensures
        forall|u: NodeId| #[trigger] t.replace_leaf(i, TreeView::Pane(p)).contains_id(u) == t.contains_id(u),
        t.replace_leaf(i, TreeView::Pane(p)).unique_ids() == t.unique_ids(),
    decreases t,
{
    let t2 = t.replace_leaf(i, TreeView::Pane(p));
    match t {
        TreeView::Split { orientation, ratio, first, second, id } => {
            let n = first.leaves().len() as int;
            if i < n {
                lemma_replace_same_id(*first, i, p);
                let f2 = first.replace_leaf(i, TreeView::Pane(p));
                assert(t2 == TreeView::Split { orientation, ratio, first: Box::new(f2), second, id });
                assert forall|u: NodeId| #[trigger] t2.contains_id(u) == t.contains_id(u) by {
                    assert(f2.contains_id(u) == first.contains_id(u));
                }
                assert((forall|u: NodeId| !(f2.contains_id(u) && #[trigger] second.contains_id(u)))
                    == (forall|u: NodeId| !(first.contains_id(u) && #[trigger] second.contains_id(u)))) by {
                    assert forall|u: NodeId| #[trigger] second.contains_id(u) implies f2.contains_id(u)
                        == first.contains_id(u) by {}
                }
            } else {
                lemma_replace_same_id(*second, i - n, p);
                let s2 = second.replace_leaf(i - n, TreeView::Pane(p));
                assert(t2 == TreeView::Split { orientation, ratio, first, second: Box::new(s2), id });
                assert forall|u: NodeId| #[trigger] t2.contains_id(u) == t.contains_id(u) by {
                    assert(s2.contains_id(u) == second.contains_id(u));
                }
                assert((forall|u: NodeId| !(first.contains_id(u) && #[trigger] s2.contains_id(u)))
                    == (forall|u: NodeId| !(first.contains_id(u) && #[trigger] second.contains_id(u)))) by {
                    assert forall|u: NodeId| #[trigger] first.contains_id(u) implies s2.contains_id(u)
                        == second.contains_id(u) by {}
                }
            }
        },
        TreeView::Pane(x) => {
            assert(t.leaves()[i] == x);
            assert forall|u: NodeId| #[trigger] t2.contains_id(u) == t.contains_id(u) by {}
        },
    }
}

/// The identifiers after a replacement come from the tree or from `sub`.
pub proof fn lemma_replace_ids<R, F>(t: TreeView<R, F>, i: int, sub: TreeView<R, F>)
    requires
        0 <= i < t.leaves().len(),
    ensures
        forall|u: NodeId| #[trigger] t.replace_leaf(i, sub).contains_id(u) ==> t.contains_id(u)
            || sub.contains_id(u),
    decreases t,
{
    let t2 = t.replace_leaf(i, sub);
    if let TreeView::Split { orientation, ratio, first, second, id } = t {
        let n = first.leaves().len() as int;
        if i < n {
            lemma_replace_ids(*first, i, sub);
            let f2 = first.replace_leaf(i, sub);
            assert(t2 == TreeView::Split { orientation, ratio, first: Box::new(f2), second, id });
            assert forall|u: NodeId| #[trigger] t2.contains_id(u) implies t.contains_id(u)
                || sub.contains_id(u) by {
                if f2.contains_id(u) {
                    assert(first.contains_id(u) || sub.contains_id(u));
                }
            }
        } else {
            lemma_replace_ids(*second, i - n, sub);
            let s2 = second.replace_leaf(i - n, sub);
            assert(t2 == TreeView::Split { orientation, ratio, first, second: Box::new(s2), id });
            assert forall|u: NodeId| #[trigger] t2.contains_id(u) implies t.contains_id(u)
                || sub.contains_id(u) by {
                if s2.contains_id(u) {
                    assert(second.contains_id(u) || sub.contains_id(u));
                }
            }
        }
    }
}

/// Replacing a pane by a subtree of fresh, unique identifiers keeps the
/// identifiers unique.
pub proof fn lemma_replace_unique<R, F>(t: TreeView<R, F>, i: int, sub: TreeView<R, F>)
    requires
        0 <= i < t.leaves().len(),
        t.unique_ids(),
        sub.unique_ids(),
        forall|u: NodeId| #[trigger] sub.contains_id(u) ==> !t.contains_id(u),
    ensures
        t.replace_leaf(i, sub).unique_ids(),
    decreases t,
{
    if let TreeView::Split { first, second, id, .. } = t {
        let n = first.leaves().len() as int;
        if i < n {
            assert forall|u: NodeId| #[trigger] sub.contains_id(u) implies !first.contains_id(u) by {
                assert(!t.contains_id(u));
            }
            lemma_replace_unique(*first, i, sub);
            lemma_replace_ids(*first, i, sub);
            let f2 = first.replace_leaf(i, sub);
            assert(!sub.contains_id(id));
            assert forall|u: NodeId| !(f2.contains_id(u) && #[trigger] second.contains_id(u)) by {
                if f2.contains_id(u) && second.contains_id(u) {
                    if sub.contains_id(u) {
                        assert(t.contains_id(u));
                    }
                }
            }
        } else {
            assert forall|u: NodeId| #[trigger] sub.contains_id(u) implies !second.contains_id(u) by {
                assert(!t.contains_id(u));
            }
            lemma_replace_unique(*second, i - n, sub);
            lemma_replace_ids(*second, i - n, sub);
            let s2 = second.replace_leaf(i - n, sub);
            assert(!sub.contains_id(id));
            assert forall|u: NodeId| !(first.contains_id(u) && #[trigger] s2.contains_id(u)) by {
                if first.contains_id(u) && s2.contains_id(u) {
                    if sub.contains_id(u) {
                        assert(t.contains_id(u));
                    }
                }
            }
        }
    }
}

/// Cleaning up keeps only identifiers of the tree, and keeps them unique.
pub proof fn lemma_cleaned_ids<R, F>(t: TreeView<R, F>)
    ensures
        forall|u: NodeId| #[trigger] t.cleaned().contains_id(u) ==> t.contains_id(u),
        t.unique_ids() ==> t.cleaned().unique_ids(),
    decreases t,
{
    if let TreeView::Split { first, second, .. } = t {
        lemma_cleaned_ids(*first);
        lemma_cleaned_ids(*second);
        assert forall|u: NodeId| #[trigger] t.cleaned().contains_id(u) implies t.contains_id(u) by {
            if first.cleaned().contains_id(u) {
                assert(first.contains_id(u));
            }
            if second.cleaned().contains_id(u) {
                assert(second.contains_id(u));
            }
        }
    }
}

/// Replacing pane `k` by `sub` and then pane `k + j` (a pane of `sub`) by `x`
/// is replacing pane `k` by `sub` with its `j`-th pane replaced by `x`.
pub proof fn lemma_replace_leaf_nested<R, F>(
    t: TreeView<R, F>,
    k: int,
    sub: TreeView<R, F>,
    j: int,
    x: TreeView<R, F>,
)
    requires
        0 <= k < t.leaves().len(),
        0 <= j < sub.leaves().len(),
    ensures
        t.replace_leaf(k, sub).replace_leaf(k + j, x) == t.replace_leaf(k, sub.replace_leaf(j, x)),
    decreases t,
{
    if let TreeView::Split { first, second, .. } = t {
        let n = first.leaves().len() as int;
        if k < n {
            lemma_replace_leaf_leaves(*first, k, sub);
            lemma_replace_leaf_nested(*first, k, sub, j, x);
        } else {
            lemma_replace_leaf_nested(*second, k - n, sub, j, x);
        }
    }
}

/// If no pane of `a` satisfies `q` and the first pane of `b` that does is
/// at `j`, the first pane of `a + b + c` that does is at `a.len() + j`.
pub proof fn lemma_first_in_middle<F>(
    a: Seq<PaneView<F>>,
    b: Seq<PaneView<F>>,
    c: Seq<PaneView<F>>,
    q: PaneQuery,
    j: int,
)
    requires
        forall|i: int| 0 <= i < a.len() ==> !q.holds(#[trigger] a[i]),
        first_pane(b, q) == Some(j),
    ensures
        first_pane(a + b + c, q) == Some(a.len() + j),
{
    lemma_first_pane(a, q);
    lemma_first_pane_concat(a, b, q);
    lemma_first_pane_concat(a + b, c, q);
}

/// Splitting pane `k` of a tree with unique identifiers below `n` under the
/// fresh identifiers `n`, `n + 1`, `n + 2`, then stacking `w` onto the new
/// empty pane, gives the tree with pane `k` replaced by the split holding
/// `w` in its second pane; identifiers stay unique and fall below `n + 3`.
pub proof fn lemma_split_then_stack<R, F>(
    t: TreeView<R, F>,
    k: int,
    n: u64,
    o: Orientation,
    r: R,
    w: ManagedWindow<F>,
)
    requires
        t.unique_ids(),
        t.ids_below(n),
        n < u64::MAX - 2,
        0 <= k < t.leaves().len(),
    ensures
        ({
            let a = NodeId(n);
            let b = NodeId(bump(n));
            let s = NodeId(bump(bump(n)));
            let p = t.leaves()[k];
            let t1 = t.replace_leaf(k, split_pane_view(p, o, r, a, b, s));
            let pb = PaneView::<F> { id: b, tabs: seq![], active: 0, zoomed: false };
            let t2 = t.replace_leaf(k, split_pane_view_with(p, o, r, a, b, s, w));
            &&& t1.first(PaneQuery::Id(b)) == Some(k + 1)
            &&& t1.leaves()[k + 1] == pb
            &&& t1.replace_leaf(k + 1, TreeView::Pane(pb.with_tab(w))) == t2
            &&& t2.unique_ids()
            &&& t2.ids_below(bump(bump(bump(n))))
        }),
{
    let a = NodeId(n);
    let b = NodeId(bump(n));
    let s = NodeId(bump(bump(n)));
    let p = t.leaves()[k];
    let sub = split_pane_view::<R, F>(p, o, r, a, b, s);
    let t1 = t.replace_leaf(k, sub);
    let pa = PaneView::<F> { id: a, tabs: p.tabs, active: 0, zoomed: p.zoomed };
    let pb = PaneView::<F> { id: b, tabs: seq![], active: 0, zoomed: false };
    let x = TreeView::<R, F>::Pane(pb.with_tab(w));
    let sub2 = split_pane_view_with::<R, F>(p, o, r, a, b, s, w);
    let t2 = t.replace_leaf(k, sub2);
    let l = t.leaves();
    // The panes after the split.
    lemma_replace_leaf_leaves(t, k, sub);
    assert(TreeView::<R, F>::Pane(pa).leaves() == seq![pa]);
    assert(TreeView::<R, F>::Pane(pb).leaves() == seq![pb]);
    assert(sub.leaves() =~= seq![pa, pb]);
    let pre = l.subrange(0, k);
    let post = l.subrange(k + 1, l.len() as int);
    assert(t1.leaves() == pre + sub.leaves() + post);
    // No earlier pane carries the fresh identifier `b`.
    assert forall|i: int| 0 <= i < pre.len() implies !PaneQuery::Id(b).holds(#[trigger] pre[i]) by {
        lemma_leaf_contained(t, i);
        assert(pre[i] == l[i]);
    }
    assert(first_pane(sub.leaves(), PaneQuery::Id(b)) == Some(1int)) by {
        reveal_with_fuel(first_pane, 3);
        assert(sub.leaves().drop_first() =~= seq![pb]);
        assert(sub.leaves().drop_first().drop_first() =~= Seq::<PaneView<F>>::empty());
    }
    lemma_first_in_middle(pre, sub.leaves(), post, PaneQuery::Id(b), 1);
    assert(t1.leaves()[k + 1] == pb);
    // Stacking onto the second pane of the split.
    lemma_replace_leaf_nested(t, k, sub, 1, x);
    assert(sub.replace_leaf(1, x) == sub2) by {
        assert(pb.with_tab(w).tabs =~= seq![w]);
        assert(TreeView::<R, F>::Pane(pb).replace_leaf(0, x) == x);
    }
    // Identifiers.
    let pa2 = TreeView::<R, F>::Pane(pa);
    let pb2 = TreeView::<R, F>::Pane(pb.with_tab(w));
    assert(bump(n) == n + 1 && bump(bump(n)) == n + 2);
    assert forall|u: NodeId| #[trigger] pa2.contains_id(u) <==> u == a by {}
    assert forall|u: NodeId| #[trigger] pb2.contains_id(u) <==> u == b by {}
    assert(sub2 == TreeView::Split { orientation: o, ratio: r, first: Box::new(pa2), second: Box::new(pb2), id: s }) by {
        assert(pb.with_tab(w).tabs =~= seq![w]);
    }
    assert forall|u: NodeId| #[trigger] sub2.contains_id(u) implies !t.contains_id(u) by {
        assert(u == s || pa2.contains_id(u) || pb2.contains_id(u));
    }
    assert forall|u: NodeId| !(pa2.contains_id(u) && #[trigger] pb2.contains_id(u)) by {}
    assert(pa2.unique_ids() && pb2.unique_ids());
    assert(!pa2.contains_id(s) && !pb2.contains_id(s));
    assert(sub2.unique_ids());
    lemma_replace_unique(t, k, sub2);
    lemma_replace_ids(t, k, sub2);
    assert forall|u: NodeId| #[trigger] t2.contains_id(u) implies u.0 < bump(bump(bump(n))) by {
        if sub2.contains_id(u) {
            assert(u == s || pa2.contains_id(u) || pb2.contains_id(u));
        }
    }
}

/// Replacing a found node by itself changes nothing.
pub proof fn lemma_replace_node_self<R, F>(t: TreeView<R, F>, x: NodeId)
    requires
        t.find(x) is Some,
    ensures
        t.replace_node(x, t.find(x)->0) == t,
    decreases t,
{
    if t.id() != x {
        if let TreeView::Split { first, second, .. } = t {
            if first.find(x) is Some {
                lemma_replace_node_self(*first, x);
            } else {
                lemma_replace_node_self(*second, x);
            }
        }
    }
}

/// After a found node is replaced by a node with the same identifier, the
/// search finds the replacement.
pub proof fn lemma_replace_node_find<R, F>(t: TreeView<R, F>, x: NodeId, n: TreeView<R, F>)
    requires
        t.find(x) is Some,
        n.id() == x,
    ensures
        t.replace_node(x, n).find(x) == Some(n),
    decreases t,
{
    if t.id() != x {
        if let TreeView::Split { first, second, .. } = t {
            if first.find(x) is Some {
                lemma_replace_node_find(*first, x, n);
            } else {
                lemma_replace_node_find(*second, x, n);
            }
        }
    }
}

/// Replacing a found pane by a pane with the same identifier keeps the
/// identifiers of the tree and their uniqueness.
pub proof fn lemma_replace_node_ids<R, F>(t: TreeView<R, F>, x: NodeId, p: PaneView<F>)
    requires
        t.find(x) matches Some(TreeView::Pane(_)),
        p.id == x,
    ensures
        forall|u: NodeId| #[trigger] t.replace_node(x, TreeView::Pane(p)).contains_id(u) == t.contains_id(u),
        t.replace_node(x, TreeView::Pane(p)).unique_ids() == t.unique_ids(),
    decreases t,
{
    let t2 = t.replace_node(x, TreeView::Pane(p));
    if t.id() == x {
        assert(t matches TreeView::Pane(_));
        assert forall|u: NodeId| #[trigger] t2.contains_id(u) == t.contains_id(u) by {}
    } else if let TreeView::Split { orientation, ratio, first, second, id } = t {
        if first.find(x) is Some {
            lemma_replace_node_ids(*first, x, p);
            let f2 = first.replace_node(x, TreeView::Pane(p));
            assert(t2 == TreeView::Split { orientation, ratio, first: Box::new(f2), second, id });
            assert forall|u: NodeId| #[trigger] t2.contains_id(u) == t.contains_id(u) by {
                assert(f2.contains_id(u) == first.contains_id(u));
            }
            assert((forall|u: NodeId| !(f2.contains_id(u) && #[trigger] second.contains_id(u)))
                == (forall|u: NodeId| !(first.contains_id(u) && #[trigger] second.contains_id(u)))) by {
                assert forall|u: NodeId| #[trigger] second.contains_id(u) implies f2.contains_id(u)
                    == first.contains_id(u) by {}
            }
        } else {
            lemma_replace_node_ids(*second, x, p);
            let s2 = second.replace_node(x, TreeView::Pane(p));
            assert(t2 == TreeView::Split { orientation, ratio, first, second: Box::new(s2), id });
            assert forall|u: NodeId| #[trigger] t2.contains_id(u) == t.contains_id(u) by {
                assert(s2.contains_id(u) == second.contains_id(u));
            }
            assert((forall|u: NodeId| !(first.contains_id(u) && #[trigger] s2.contains_id(u)))
                == (forall|u: NodeId| !(first.contains_id(u) && #[trigger] second.contains_id(u)))) by {
                assert forall|u: NodeId| #[trigger] first.contains_id(u) implies s2.contains_id(u)
                    == second.contains_id(u) by {}
            }
        }
    }
}

/// Replacing a found pane by a pane with the same identifier does not change
/// what the search finds for another identifier that names a pane.
pub proof fn lemma_replace_node_find_other<R, F>(
    t: TreeView<R, F>,
    x: NodeId,
    p: PaneView<F>,
    y: NodeId,
)
    requires
        t.find(x) matches Some(TreeView::Pane(_)),
        t.find(y) matches Some(TreeView::Pane(_)),
        p.id == x,
        x != y,
    ensures
        t.replace_node(x, TreeView::Pane(p)).find(y) == t.find(y),
    decreases t,
{
    lemma_find_id(t, x);
    lemma_find_id(t, y);
    if let TreeView::Split { first, second, .. } = t {
        if first.find(x) is Some {
            lemma_replace_node_ids(*first, x, p);
            lemma_find_none(*first, y);
            lemma_find_none(first.replace_node(x, TreeView::Pane(p)), y);
            if first.find(y) is Some {
                lemma_replace_node_find_other(*first, x, p, y);
            }
        } else {
            if second.find(y) is Some && first.find(y) is None {
                lemma_replace_node_find_other(*second, x, p, y);
            }
        }
    }
}

/// Replacing the same found node twice keeps only the second replacement.
pub proof fn lemma_replace_node_twice<R, F>(
    t: TreeView<R, F>,
    x: NodeId,
    m: TreeView<R, F>,
    n: TreeView<R, F>,
)
    requires
        t.find(x) is Some,
        m.id() == x,
    ensures
        t.replace_node(x, m).replace_node(x, n) == t.replace_node(x, n),
    decreases t,
{
    if t.id() != x {
        if let TreeView::Split { first, second, .. } = t {
            if first.find(x) is Some {
                lemma_replace_node_find(*first, x, m);
                lemma_replace_node_twice(*first, x, m, n);
            } else {
                lemma_replace_node_twice(*second, x, m, n);
            }
        }
    }
}

/// Replacements of two different found panes by panes with the same
/// identifiers commute.
pub proof fn lemma_replace_node_commute<R, F>(
    t: TreeView<R, F>,
    x: NodeId,
    p: PaneView<F>,
    y: NodeId,
    q: PaneView<F>,
)
    requires
        t.find(x) matches Some(TreeView::Pane(_)),
        t.find(y) matches Some(TreeView::Pane(_)),
        p.id == x,
        q.id == y,
        x != y,
    ensures
        t.replace_node(x, TreeView::Pane(p)).replace_node(y, TreeView::Pane(q)) == t.replace_node(
            y,
            TreeView::Pane(q),
        ).replace_node(x, TreeView::Pane(p)),
    decreases t,
{
    lemma_find_id(t, x);
    lemma_find_id(t, y);
    if let TreeView::Split { first, second, .. } = t {
        let px = TreeView::<R, F>::Pane(p);
        let qy = TreeView::<R, F>::Pane(q);
        if first.find(x) is Some {
            lemma_replace_node_ids(*first, x, p);
            lemma_find_none(*first, y);
            lemma_find_none(first.replace_node(x, px), y);
            if first.find(y) is Some {
                lemma_replace_node_find_other(*first, x, p, y);
                lemma_replace_node_find_other(*first, y, q, x);
                lemma_replace_node_commute(*first, x, p, y, q);
            }
        } else {
            if first.find(y) is Some {
                lemma_replace_node_ids(*first, y, q);
                lemma_find_none(*first, x);
                lemma_find_none(first.replace_node(y, qy), x);
            } else {
                lemma_replace_node_find_other(*second, x, p, y);
                lemma_replace_node_find_other(*second, y, q, x);
                lemma_replace_node_commute(*second, x, p, y, q);
            }
        }
    }
}

/// Replacing a pane by `sub` changes the number of windows by the
/// difference between the windows of `sub` and those of the pane.
pub proof fn lemma_replace_leaf_windows<R, F>(t: TreeView<R, F>, i: int, sub: TreeView<R, F>)
    requires
        0 <= i < t.leaves().len(),
    ensures
        t.replace_leaf(i, sub).windows().len() == t.windows().len() - t.leaves()[i].tabs.len()
            + sub.windows().len(),
        forall|w: ManagedWindow<F>| sub.windows().contains(w) ==> #[trigger] t.replace_leaf(
            i,
            sub,
        ).windows().contains(w),
    decreases t,
{
    let t2 = t.replace_leaf(i, sub);
    if let TreeView::Split { orientation, ratio, first, second, id } = t {
        let n = first.leaves().len() as int;
        if i < n {
            lemma_replace_leaf_windows(*first, i, sub);
            let f2 = first.replace_leaf(i, sub);
            assert(t2 == TreeView::Split { orientation, ratio, first: Box::new(f2), second, id });
            assert forall|w: ManagedWindow<F>| sub.windows().contains(w) implies #[trigger] t2.windows().contains(w) by {
                assert(f2.windows().contains(w));
                let k = choose|k: int| 0 <= k < f2.windows().len() && f2.windows()[k] == w;
                assert(t2.windows()[k] == w);
            }
        } else {
            lemma_replace_leaf_windows(*second, i - n, sub);
            let s2 = second.replace_leaf(i - n, sub);
            assert(t2 == TreeView::Split { orientation, ratio, first, second: Box::new(s2), id });
            assert forall|w: ManagedWindow<F>| sub.windows().contains(w) implies #[trigger] t2.windows().contains(w) by {
                assert(s2.windows().contains(w));
                let k = choose|k: int| 0 <= k < s2.windows().len() && s2.windows()[k] == w;
                assert(t2.windows()[first.windows().len() + k] == w);
            }
        }
    } else {
        assert(t.leaves()[i] == t->Pane_0);
    }
}

/// Cleaning up keeps every window in order; afterwards the tree is a single
/// pane or has no empty pane; a tree without empty panes is left as it is.
pub proof fn lemma_cleaned<R, F>(t: TreeView<R, F>)
    ensures
        t.cleaned().windows() == t.windows(),
        t.cleaned() is Pane || forall|k: int| 0 <= k < t.cleaned().leaves().len()
            ==> (#[trigger] t.cleaned().leaves()[k]).tabs.len() > 0,
        (forall|k: int| 0 <= k < t.leaves().len() ==> (#[trigger] t.leaves()[k]).tabs.len() > 0)
            ==> t.cleaned() == t,
    decreases t,
{
    if let TreeView::Split { orientation, ratio, first, second, id } = t {
        lemma_cleaned(*first);
        lemma_cleaned(*second);
        let f = first.cleaned();
        let g = second.cleaned();
        if f.is_empty_pane() {
            assert(f.windows() =~= Seq::<ManagedWindow<F>>::empty());
            assert(t.windows() =~= g.windows());
        } else if g.is_empty_pane() {
            assert(g.windows() =~= Seq::<ManagedWindow<F>>::empty());
            assert(t.windows() =~= f.windows());
        } else {
            let c = t.cleaned();
            assert(c == TreeView::Split { orientation, ratio, first: Box::new(f), second: Box::new(g), id });
            assert(c.leaves() == f.leaves() + g.leaves());
            assert forall|k: int| 0 <= k < c.leaves().len() implies (#[trigger] c.leaves()[k]).tabs.len() > 0 by {
                if k < f.leaves().len() {
                    assert(c.leaves()[k] == f.leaves()[k]);
                    if f is Pane {
                        assert(f.leaves() == seq![f->Pane_0]);
                    }
                } else {
                    assert(c.leaves()[k] == g.leaves()[k - f.leaves().len()]);
                    if g is Pane {
                        assert(g.leaves() == seq![g->Pane_0]);
                    }
                }
            }
        }
        if forall|k: int| 0 <= k < t.leaves().len() ==> (#[trigger] t.leaves()[k]).tabs.len() > 0 {
            let nf = first.leaves().len();
            assert forall|k: int| 0 <= k < first.leaves().len() implies (#[trigger] first.leaves()[k]).tabs.len() > 0 by {
                assert(t.leaves()[k] == first.leaves()[k]);
            }
            assert forall|k: int| 0 <= k < second.leaves().len() implies (#[trigger] second.leaves()[k]).tabs.len() > 0 by {
                assert(t.leaves()[nf + k] == second.leaves()[k]);
            }
            if first.is_empty_pane() {
                assert(first.leaves()[0].tabs.len() > 0);
            }
            if second.is_empty_pane() {
                assert(second.leaves()[0].tabs.len() > 0);
            }
        }
    }
}

/// With unique identifiers, a split succeeds only at an identifier that the
/// search finds as a pane.
pub proof fn lemma_split_found<R, F>(
    t: TreeView<R, F>,
    p: NodeId,
    o: Orientation,
    r: R,
    a: NodeId,
    b: NodeId,
    s: NodeId,
)
    requires
        t.unique_ids(),
    ensures
        t.split_at(p, o, r, a, b, s) is Some ==> t.find(p) matches Some(TreeView::Pane(_)),
    decreases t,
{
    if t.id() != p {
        if let TreeView::Split { first, second, .. } = t {
            lemma_split_found(*first, p, o, r, a, b, s);
            lemma_split_found(*second, p, o, r, a, b, s);
            if first.split_at(p, o, r, a, b, s) is None && second.split_at(p, o, r, a, b, s) is Some {
                lemma_find_id(*second, p);
                lemma_find_none(*second, p);
                lemma_find_none(*first, p);
            }
        }
    }
}

/// Splitting a found pane of a tree with unique identifiers below `n` under
/// the fresh identifiers `n`, `n + 1`, `n + 2` replaces that pane by the
/// split and keeps the identifiers unique and below `n + 3`.
pub proof fn lemma_split_ids<R, F>(
    t: TreeView<R, F>,
    p: NodeId,
    pv: PaneView<F>,
    o: Orientation,
    r: R,
    n: u64,
)
    requires
        t.unique_ids(),
        t.ids_below(n),
        n < u64::MAX - 2,
        t.find(p) == Some(TreeView::<R, F>::Pane(pv)),
    ensures
        t.first(PaneQuery::Id(p)) matches Some(k) && ({
            let t1 = t.replace_leaf(k, split_pane_view(pv, o, r, NodeId(n), NodeId(bump(n)), NodeId(bump(bump(n)))));
            &&& 0 <= k < t.leaves().len()
            &&& t.leaves()[k] == pv
            &&& t.split_at(p, o, r, NodeId(n), NodeId(bump(n)), NodeId(bump(bump(n)))) == Some(t1)
            &&& t1.unique_ids()
            &&& t1.ids_below(bump(bump(bump(n))))
        }),
{
    let a = NodeId(n);
    let b = NodeId(bump(n));
    let s = NodeId(bump(bump(n)));
    lemma_find_pane(t, p, pv);
    lemma_find_pane_split(t, p, pv, o, r, a, b, s);
    let k = t.first(PaneQuery::Id(p))->0;
    let w = arbitrary::<ManagedWindow<F>>();
    lemma_split_then_stack(t, k, n, o, r, w);
    let t1 = t.replace_leaf(k, split_pane_view(pv, o, r, a, b, s));
    let pb = PaneView::<F> { id: b, tabs: seq![], active: 0, zoomed: false };
    lemma_first_pane(t1.leaves(), PaneQuery::Id(b));
    lemma_replace_same_id(t1, k + 1, pb.with_tab(w));
    assert forall|u: NodeId| #[trigger] t1.contains_id(u) implies u.0 < bump(bump(bump(n))) by {
        assert(t1.replace_leaf(k + 1, TreeView::Pane(pb.with_tab(w))).contains_id(u));
    }
}

/// Two sequences of panes on which a query holds at the same positions
/// have the same first pane satisfying it.
pub proof fn lemma_first_pane_same<F>(s1: Seq<PaneView<F>>, s2: Seq<PaneView<F>>, q: PaneQuery)
    requires
        s1.len() == s2.len(),
        forall|j: int| 0 <= j < s1.len() ==> q.holds(#[trigger] s1[j]) == q.holds(s2[j]),
    ensures
        first_pane(s1, q) == first_pane(s2, q),
{
    lemma_first_pane(s1, q);
    lemma_first_pane(s2, q);
    match (first_pane(s1, q), first_pane(s2, q)) {
        (Some(i1), Some(i2)) => {
            if i1 < i2 {
                assert(q.holds(s1[i1]));
            } else if i2 < i1 {
                assert(q.holds(s2[i2]) == q.holds(s1[i2]));
            }
        },
        (Some(i1), None) => {
            assert(q.holds(s1[i1]));
        },
        (None, Some(i2)) => {
            assert(q.holds(s2[i2]) == q.holds(s1[i2]));
        },
        (None, None) => {},
    }
}

/// Replacing a pane by a pane with the same identifier changes only that
/// entry of the panes, and no search by identifier.
pub proof fn lemma_replace_leaf_pane<R, F>(t: TreeView<R, F>, i: int, pv: PaneView<F>)
    requires
        0 <= i < t.leaves().len(),
        pv.id == t.leaves()[i].id,
    ensures
        t.replace_leaf(i, TreeView::Pane(pv)).leaves() == t.leaves().update(i, pv),
        forall|x: NodeId| #[trigger] t.replace_leaf(i, TreeView::Pane(pv)).first(PaneQuery::Id(x))
            == t.first(PaneQuery::Id(x)),
{
    let l = t.leaves();
    lemma_replace_leaf_leaves(t, i, TreeView::Pane(pv));
    assert(TreeView::<R, F>::Pane(pv).leaves() == seq![pv]);
    assert(l.subrange(0, i) + seq![pv] + l.subrange(i + 1, l.len() as int) =~= l.update(i, pv));
    let l2 = t.replace_leaf(i, TreeView::Pane(pv)).leaves();
    assert forall|x: NodeId| #[trigger] t.replace_leaf(i, TreeView::Pane(pv)).first(PaneQuery::Id(x))
        == t.first(PaneQuery::Id(x)) by {
        assert forall|j: int| 0 <= j < l2.len() implies PaneQuery::Id(x).holds(#[trigger] l2[j])
            == PaneQuery::Id(x).holds(l[j]) by {}
        lemma_first_pane_same(l2, l, PaneQuery::Id(x));
    }
}

/// Replacing the same pane twice, first by a pane, keeps only the second
/// replacement.
pub proof fn lemma_replace_leaf_twice<R, F>(
    t: TreeView<R, F>,
    i: int,
    p: PaneView<F>,
    y: TreeView<R, F>,
)
    requires
        0 <= i < t.leaves().len(),
    ensures
        t.replace_leaf(i, TreeView::Pane(p)).replace_leaf(i, y) == t.replace_leaf(i, y),
    decreases t,
{
    if let TreeView::Split { first, second, .. } = t {
        let n = first.leaves().len() as int;
        if i < n {
            lemma_replace_leaf_leaves(*first, i, TreeView::Pane(p));
            assert(TreeView::<R, F>::Pane(p).leaves() == seq![p]);
            lemma_replace_leaf_twice(*first, i, p, y);
        } else {
            lemma_replace_leaf_twice(*second, i - n, p, y);
        }
    }
}

/// Replacing a pane by itself changes nothing.
pub proof fn lemma_replace_leaf_self<R, F>(t: TreeView<R, F>, i: int)
    requires
        0 <= i < t.leaves().len(),
    ensures
        t.replace_leaf(i, TreeView::Pane(t.leaves()[i])) == t,
    decreases t,
{
    match t {
        TreeView::Split { first, second, .. } => {
            let n = first.leaves().len() as int;
            if i < n {
                lemma_replace_leaf_self(*first, i);
            } else {
                lemma_replace_leaf_self(*second, i - n);
            }
        },
        TreeView::Pane(x) => {
            assert(t.leaves()[i] == x);
        },
    }
}

/// With unique identifiers, replacing the node found by a pane's
/// identifier is replacing that pane.
pub proof fn lemma_replace_node_leaf<R, F>(t: TreeView<R, F>, k: int, q: PaneView<F>)
    requires
        t.unique_ids(),
        0 <= k < t.leaves().len(),
        q.id == t.leaves()[k].id,
    ensures
        t.replace_node(t.leaves()[k].id, TreeView::Pane(q)) == t.replace_leaf(k, TreeView::Pane(q)),
    decreases t,
{
    let x = t.leaves()[k].id;
    if let TreeView::Split { first, second, id, .. } = t {
        let n = first.leaves().len() as int;
        if k < n {
            lemma_leaf_contained(*first, k);
            lemma_unique_find(*first, k);
            lemma_replace_node_leaf(*first, k, q);
        } else {
            lemma_leaf_contained(*second, k - n);
            lemma_find_none(*first, x);
            lemma_replace_node_leaf(*second, k - n, q);
        }
    } else {
        assert(t.leaves()[k] == t->Pane_0);
    }
}

/// The windows of two runs of panes are the windows of the first run
/// followed by those of the second.
pub proof fn lemma_tabs_of_concat<F>(a: Seq<PaneView<F>>, b: Seq<PaneView<F>>)
    ensures
        tabs_of(a + b) == tabs_of(a) + tabs_of(b),
    decreases b.len(),
{
    if b.len() == 0 {
        assert(a + b =~= a);
    } else {
        assert((a + b).drop_last() =~= a + b.drop_last());
        lemma_tabs_of_concat(a, b.drop_last());
        assert(tabs_of(a + b) =~= tabs_of(a) + tabs_of(b));
    }
}

/// The windows of a tree are the windows of its panes, in order.
pub proof fn lemma_windows_tabs<R, F>(t: TreeView<R, F>)
    ensures
        t.windows() == tabs_of(t.leaves()),
    decreases t,
{
    match t {
        TreeView::Split { first, second, .. } => {
            lemma_windows_tabs(*first);
            lemma_windows_tabs(*second);
            lemma_tabs_of_concat(first.leaves(), second.leaves());
        },
        TreeView::Pane(p) => {
            let e = Seq::<PaneView<F>>::empty();
            assert(seq![p].drop_last() =~= e);
            assert(tabs_of(e) == Seq::<ManagedWindow<F>>::empty());
            assert(seq![p].last() == p);
            assert(tabs_of(seq![p]) =~= p.tabs);
        },
    }
}

/// Runs of panes hold no window exactly when every pane is empty.
pub proof fn lemma_tabs_of_empty<F>(s: Seq<PaneView<F>>)
    ensures
        tabs_of(s).len() == 0 <==> forall|k: int| 0 <= k < s.len() ==> (#[trigger] s[k]).tabs.len() == 0,
    decreases s.len(),
{
    if s.len() > 0 {
        lemma_tabs_of_empty(s.drop_last());
        assert forall|k: int| 0 <= k < s.len() - 1 implies s.drop_last()[k] == #[trigger] s[k] by {}
        if tabs_of(s).len() == 0 {
            assert forall|k: int| 0 <= k < s.len() implies (#[trigger] s[k]).tabs.len() == 0 by {
                if k < s.len() - 1 {
                    assert(s.drop_last()[k] == s[k]);
                }
            }
        }
        if forall|k: int| 0 <= k < s.len() ==> (#[trigger] s[k]).tabs.len() == 0 {
            assert(s[s.len() - 1].tabs.len() == 0);
            assert forall|k: int| 0 <= k < s.drop_last().len() implies (#[trigger] s.drop_last()[k]).tabs.len()
                == 0 by {
                assert(s.drop_last()[k] == s[k]);
            }
        }
    }
}

/// The non-empty panes of two runs are those of the first run followed by
/// those of the second.
pub proof fn lemma_nonempty_concat<F>(a: Seq<PaneView<F>>, b: Seq<PaneView<F>>)
    ensures
        nonempty_panes(a + b) == nonempty_panes(a) + nonempty_panes(b),
    decreases b.len(),
{
    if b.len() == 0 {
        assert(a + b =~= a);
        assert(nonempty_panes(a) + nonempty_panes(b) =~= nonempty_panes(a));
    } else {
        assert((a + b).drop_last() =~= a + b.drop_last());
        assert((a + b).last() == b.last());
        lemma_nonempty_concat(a, b.drop_last());
        assert(nonempty_panes(a) + nonempty_panes(b.drop_last()).push(b.last()) =~= (nonempty_panes(a)
            + nonempty_panes(b.drop_last())).push(b.last()));
    }
}

/// Runs of empty panes have no non-empty panes.
pub proof fn lemma_nonempty_none<F>(s: Seq<PaneView<F>>)
    requires
        forall|k: int| 0 <= k < s.len() ==> (#[trigger] s[k]).tabs.len() == 0,
    ensures
        nonempty_panes(s) == Seq::<PaneView<F>>::empty(),
    decreases s.len(),
{
    if s.len() > 0 {
        assert forall|k: int| 0 <= k < s.drop_last().len() implies (#[trigger] s.drop_last()[k]).tabs.len()
            == 0 by {
            assert(s.drop_last()[k] == s[k]);
        }
        lemma_nonempty_none(s.drop_last());
        assert(s[s.len() - 1].tabs.len() == 0);
    }
}

/// The non-empty panes are panes of the run, and every non-empty pane of
/// the run is among them.
pub proof fn lemma_nonempty_members<F>(s: Seq<PaneView<F>>)
    ensures
        forall|m: int|
            0 <= m < nonempty_panes(s).len() ==> exists|k: int|
                0 <= k < s.len() && s[k] == #[trigger] nonempty_panes(s)[m],
        forall|k: int|
            0 <= k < s.len() && (#[trigger] s[k]).tabs.len() > 0 ==> exists|m: int|
                0 <= m < nonempty_panes(s).len() && nonempty_panes(s)[m] == s[k],
    decreases s.len(),
{
    if s.len() > 0 {
        let d = s.drop_last();
        lemma_nonempty_members(d);
        let n = nonempty_panes(s);
        let nd = nonempty_panes(d);
        assert forall|m: int| 0 <= m < n.len() implies exists|k: int|
            0 <= k < s.len() && s[k] == #[trigger] n[m] by {
            if m < nd.len() {
                assert(n[m] == nd[m]);
                let k = choose|k: int| 0 <= k < d.len() && d[k] == nd[m];
                assert(s[k] == d[k]);
            } else {
                assert(n[m] == s[s.len() - 1]);
            }
        }
        assert forall|k: int| 0 <= k < s.len() && (#[trigger] s[k]).tabs.len() > 0 implies exists|m: int|
            0 <= m < n.len() && n[m] == s[k] by {
            if k < s.len() - 1 {
                assert(d[k] == s[k]);
                let m = choose|m: int| 0 <= m < nd.len() && nd[m] == d[k];
                assert(n[m] == nd[m]);
            } else {
                assert(n[nd.len() as int] == s[k]);
            }
        }
    }
}

/// A tree that holds windows cleans up to a tree whose panes are exactly
/// its non-empty panes, in order; a tree without windows cleans up to one
/// empty pane.
pub proof fn lemma_cleaned_leaves<R, F>(t: TreeView<R, F>)
    ensures
        t.windows().len() > 0 ==> t.cleaned().leaves() == nonempty_panes(t.leaves()),
        t.windows().len() == 0 ==> t.cleaned().is_empty_pane(),
    decreases t,
{
    lemma_cleaned(t);
    lemma_windows_tabs(t);
    lemma_windows_tabs(t.cleaned());
    lemma_tabs_of_empty(t.leaves());
    lemma_tabs_of_empty(t.cleaned().leaves());
    if t.windows().len() == 0 {
        if !(t.cleaned() is Pane) {
            lemma_leaves_nonempty(t.cleaned());
            assert(t.cleaned().leaves()[0].tabs.len() > 0);
        }
    }
    match t {
        TreeView::Split { orientation, ratio, first, second, id } => {
            lemma_cleaned_leaves(*first);
            lemma_cleaned_leaves(*second);
            lemma_cleaned(*first);
            lemma_cleaned(*second);
            lemma_windows_tabs(*first);
            lemma_windows_tabs(*second);
            lemma_tabs_of_empty(first.leaves());
            lemma_tabs_of_empty(second.leaves());
            lemma_nonempty_concat(first.leaves(), second.leaves());
            let f = first.cleaned();
            let g = second.cleaned();
            if t.windows().len() > 0 {
                if first.windows().len() == 0 {
                    lemma_nonempty_none(first.leaves());
                    assert(nonempty_panes(first.leaves()) + nonempty_panes(second.leaves())
                        =~= nonempty_panes(second.leaves()));
                } else if second.windows().len() == 0 {
                    lemma_nonempty_none(second.leaves());
                    assert(!f.is_empty_pane()) by {
                        if f.is_empty_pane() {
                            assert(f.windows() == f->Pane_0.tabs);
                        }
                    }
                    assert(nonempty_panes(first.leaves()) + nonempty_panes(second.leaves())
                        =~= nonempty_panes(first.leaves()));
                } else {
                    assert(!f.is_empty_pane()) by {
                        if f.is_empty_pane() {
                            assert(f.windows() == f->Pane_0.tabs);
                        }
                    }
                    assert(!g.is_empty_pane()) by {
                        if g.is_empty_pane() {
                            assert(g.windows() == g->Pane_0.tabs);
                        }
                    }
                    assert(t.cleaned() == TreeView::Split {
                        orientation,
                        ratio,
                        first: Box::new(f),
                        second: Box::new(g),
                        id,
                    });
                }
            }
        },
        TreeView::Pane(p) => {
            if t.windows().len() > 0 {
                let e = Seq::<PaneView<F>>::empty();
                assert(seq![p].drop_last() =~= e);
                assert(nonempty_panes(e) == e);
                assert(seq![p].last() == p);
                assert(p.tabs.len() > 0);
                assert(nonempty_panes(seq![p]) =~= seq![p]);
            }
        },
    }
}

/// The other windows of two runs are those of the first run followed by
/// those of the second.
pub proof fn lemma_other_concat<F>(a: Seq<ManagedWindow<F>>, b: Seq<ManagedWindow<F>>, w: WindowId)
    ensures
        other_windows(a + b, w) == other_windows(a, w) + other_windows(b, w),
    decreases b.len(),
{
    if b.len() == 0 {
        assert(a + b =~= a);
        assert(other_windows(a, w) + other_windows(b, w) =~= other_windows(a, w));
    } else {
        assert((a + b).drop_last() =~= a + b.drop_last());
        assert((a + b).last() == b.last());
        lemma_other_concat(a, b.drop_last(), w);
        assert(other_windows(a, w) + other_windows(b.drop_last(), w).push(b.last()) =~= (other_windows(a, w)
            + other_windows(b.drop_last(), w)).push(b.last()));
    }
}

/// Removing a window with identifier `w` leaves the other windows as they were.
pub proof fn lemma_other_remove<F>(s: Seq<ManagedWindow<F>>, m: int, w: WindowId)
    requires
        0 <= m < s.len(),
        s[m].id == w,
    ensures
        other_windows(s.remove(m), w) == other_windows(s, w),
{
    let pre = s.subrange(0, m);
    let post = s.subrange(m + 1, s.len() as int);
    assert(s.remove(m) =~= pre + post);
    assert(s =~= pre + seq![s[m]] + post);
    lemma_other_concat(pre, post, w);
    lemma_other_concat(pre + seq![s[m]], post, w);
    lemma_other_concat(pre, seq![s[m]], w);
    let e = Seq::<ManagedWindow<F>>::empty();
    assert(seq![s[m]].drop_last() =~= e);
    assert(other_windows(e, w) == e);
    assert(seq![s[m]].last() == s[m]);
    assert(other_windows(seq![s[m]], w) =~= e);
    assert(other_windows(pre, w) + Seq::<ManagedWindow<F>>::empty() =~= other_windows(pre, w));
}

/// Runs of panes whose panes hold the same other windows hold the same
/// other windows in all.
pub proof fn lemma_other_tabs<F>(a: Seq<PaneView<F>>, b: Seq<PaneView<F>>, w: WindowId)
    requires
        a.len() == b.len(),
        forall|k: int| 0 <= k < a.len() ==> other_windows((#[trigger] a[k]).tabs, w) == other_windows(b[k].tabs, w),
    ensures
        other_windows(tabs_of(a), w) == other_windows(tabs_of(b), w),
    decreases a.len(),
{
    if a.len() > 0 {
        assert forall|k: int| 0 <= k < a.drop_last().len() implies other_windows(
            (#[trigger] a.drop_last()[k]).tabs,
            w,
        ) == other_windows(b.drop_last()[k].tabs, w) by {
            assert(a.drop_last()[k] == a[k]);
            assert(b.drop_last()[k] == b[k]);
        }
        lemma_other_tabs(a.drop_last(), b.drop_last(), w);
        lemma_other_concat(tabs_of(a.drop_last()), a.last().tabs, w);
        lemma_other_concat(tabs_of(b.drop_last()), b.last().tabs, w);
        assert(other_windows(a[a.len() - 1].tabs, w) == other_windows(b[b.len() - 1].tabs, w));
    }
}

/// The panes after the active window of pane `i` moves to pane `j`.
pub open spec fn moved_leaves<F>(l: Seq<PaneView<F>>, i: int, j: int) -> Seq<PaneView<F>> {
    let p = l[i];
    l.update(i, p.without_tab(p.active as int)).update(j, l[j].with_tab(p.tabs[p.active as int]))
}

/// Taking the active window `x` out of pane `i` and stacking it onto the
/// pane `target` (at position `j`) changes exactly those two panes and keeps
/// the identifiers unique.
pub(crate) proof fn lemma_move_shape<R, F>(t: TreeView<R, F>, i: int, target: NodeId) -> (j: int)
    requires
        t.unique_ids(),
        0 <= i < t.leaves().len(),
        t.leaves()[i].active < t.leaves()[i].tabs.len(),
        t.leaves()[i].id != target,
        t.first(PaneQuery::Id(target)) is Some,
    ensures
        t.first(PaneQuery::Id(target)) == Some(j),
        0 <= j < t.leaves().len(),
        j != i,
        ({
            let p = t.leaves()[i];
            let t2 = t.replace_leaf(i, TreeView::Pane(p.without_tab(p.active as int))).stacked(
                target,
                p.tabs[p.active as int],
            );
            &&& t2.leaves() == moved_leaves(t.leaves(), i, j)
            &&& t2.unique_ids()
        }),
{
    let l = t.leaves();
    let p = l[i];
    let a = p.active as int;
    let x = p.tabs[a];
    let pc = p.without_tab(a);
    lemma_replace_leaf_pane(t, i, pc);
    lemma_replace_same_id(t, i, pc);
    let t1 = t.replace_leaf(i, TreeView::Pane(pc));
    lemma_first_pane(l, PaneQuery::Id(target));
    let j = t.first(PaneQuery::Id(target))->0;
    assert(t1.first(PaneQuery::Id(target)) == Some(j));
    assert(t1.leaves()[j] == l[j]);
    let pp = l[j].with_tab(x);
    lemma_replace_leaf_pane(t1, j, pp);
    lemma_replace_same_id(t1, j, pp);
    j
}

/// Moving a window between panes keeps every other window in order.
proof fn lemma_move_others<F>(l: Seq<PaneView<F>>, i: int, j: int)
    requires
        0 <= i < l.len(),
        0 <= j < l.len(),
        i != j,
        l[i].active < l[i].tabs.len(),
    ensures
        other_windows(tabs_of(moved_leaves(l, i, j)), l[i].tabs[l[i].active as int].id)
            == other_windows(tabs_of(l), l[i].tabs[l[i].active as int].id),
{
    let p = l[i];
    let a = p.active as int;
    let x = p.tabs[a];
    let l2 = moved_leaves(l, i, j);
    let pp = l[j].with_tab(x);
    assert forall|k: int| 0 <= k < l2.len() implies other_windows((#[trigger] l2[k]).tabs, x.id)
        == other_windows(l[k].tabs, x.id) by {
        if k == j {
            assert(pp.tabs.drop_last() =~= l[j].tabs);
            assert(pp.tabs.last() == x);
        } else if k == i {
            lemma_other_remove(p.tabs, a, x.id);
        }
    }
    lemma_other_tabs(l2, l, x.id);
}

/// If only the active tab of pane `i` held the identifier of its window,
/// after the move only pane `j` holds it.
proof fn lemma_move_holders<F>(l: Seq<PaneView<F>>, i: int, j: int)
    requires
        0 <= i < l.len(),
        0 <= j < l.len(),
        i != j,
        l[i].active < l[i].tabs.len(),
        forall|k: int, n: int|
            0 <= k < l.len() && 0 <= n < l[k].tabs.len() && (#[trigger] l[k].tabs[n]).id
                == l[i].tabs[l[i].active as int].id ==> k == i && n == l[i].active,
    ensures
        forall|k: int, n: int|
            0 <= k < moved_leaves(l, i, j).len() && 0 <= n < moved_leaves(l, i, j)[k].tabs.len() && (
            #[trigger] moved_leaves(l, i, j)[k].tabs[n]).id == l[i].tabs[l[i].active as int].id ==> k == j,
{
    let a = l[i].active as int;
    let x = l[i].tabs[a];
    let l2 = moved_leaves(l, i, j);
    assert forall|k: int, n: int|
        0 <= k < l2.len() && 0 <= n < l2[k].tabs.len() && (#[trigger] l2[k].tabs[n]).id == x.id
            implies k == j by {
        if k == i {
            if n < a {
                assert(l2[k].tabs[n] == l[i].tabs[n]);
            } else {
                assert(l2[k].tabs[n] == l[i].tabs[n + 1]);
            }
        } else if k != j {
            assert(l2[k] == l[k]);
        }
    }
}

/// If only pane `j` of `l` holds window `w`, only that pane does among the
/// non-empty panes of `l`.
proof fn lemma_holders_kept<F>(l: Seq<PaneView<F>>, j: int, w: WindowId)
    requires
        0 <= j < l.len(),
        forall|k: int, n: int|
            0 <= k < l.len() && 0 <= n < l[k].tabs.len() && (#[trigger] l[k].tabs[n]).id == w ==> k == j,
    ensures
        forall|k: int|
            0 <= k < nonempty_panes(l).len() && holds_window((#[trigger] nonempty_panes(l)[k]).tabs, w)
                ==> nonempty_panes(l)[k] == l[j],
{
    lemma_nonempty_members(l);
    assert forall|k: int|
        0 <= k < nonempty_panes(l).len() && holds_window((#[trigger] nonempty_panes(l)[k]).tabs, w)
            implies nonempty_panes(l)[k] == l[j] by {
        let kk = choose|kk: int| 0 <= kk < l.len() && l[kk] == nonempty_panes(l)[k];
        let n = choose|n: int| 0 <= n < nonempty_panes(l)[k].tabs.len() && (#[trigger] nonempty_panes(
            l,
        )[k].tabs[n]).id == w;
        assert(l[kk].tabs[n].id == w);
    }
}

/// Moving the active window `x` of pane `i` to the pane `target` and
/// cleaning up keeps every other window in order and leaves `x` as the
/// active, last tab of `target`; if no other tab held `x`'s identifier,
/// `target` is then the only pane that holds it.
pub proof fn lemma_move_window<R, F>(t: TreeView<R, F>, i: int, target: NodeId)
    requires
        t.unique_ids(),
        0 <= i < t.leaves().len(),
        t.leaves()[i].active < t.leaves()[i].tabs.len(),
        t.leaves()[i].id != target,
        t.first(PaneQuery::Id(target)) is Some,
    ensures
        ({
            let p = t.leaves()[i];
            let x = p.tabs[p.active as int];
            let u = t.replace_leaf(i, TreeView::Pane(p.without_tab(p.active as int))).stacked(
                target,
                x,
            ).cleaned();
            &&& other_windows(u.windows(), x.id) == other_windows(t.windows(), x.id)
            &&& u.first(PaneQuery::Id(target)) matches Some(j) && u.leaves()[j].tabs.last() == x
                && u.leaves()[j].active == (u.leaves()[j].tabs.len() - 1) as usize
            &&& t.held_once(x.id) ==> (u.first(PaneQuery::Window(x.id)) matches Some(j)
                && u.leaves()[j].id == target)
            &&& t.held_once(x.id) ==> forall|k: int|
                0 <= k < u.leaves().len() && holds_window((#[trigger] u.leaves()[k]).tabs, x.id)
                    ==> u.leaves()[k].id == target
        }),
{
    let l = t.leaves();
    let p = l[i];
    let a = p.active as int;
    let x = p.tabs[a];
    let j = lemma_move_shape(t, i, target);
    let t2 = t.replace_leaf(i, TreeView::Pane(p.without_tab(a))).stacked(target, x);
    let l2 = t2.leaves();
    let pp = l[j].with_tab(x);
    assert(l2[j] == pp);
    // The moved tree holds windows, so it cleans up to its non-empty panes.
    assert(t2.windows().len() > 0) by {
        lemma_windows_tabs(t2);
        lemma_tabs_of_empty(l2);
    }
    lemma_cleaned_leaves(t2);
    let u = t2.cleaned();
    assert(other_windows(u.windows(), x.id) == other_windows(t.windows(), x.id)) by {
        lemma_cleaned(t2);
        lemma_windows_tabs(t2);
        lemma_windows_tabs(t);
        lemma_move_others(l, i, j);
    }
    // The target pane survives the clean-up with `x` as its active tab.
    lemma_cleaned_ids(t2);
    lemma_nonempty_members(l2);
    let m = choose|m: int| 0 <= m < nonempty_panes(l2).len() && nonempty_panes(l2)[m] == l2[j];
    assert(u.leaves()[m] == pp);
    lemma_first_pane(l, PaneQuery::Id(target));
    assert(pp.id == target);
    lemma_unique_find(u, m);
    assert(u.first(PaneQuery::Id(target)) == Some(m));
    assert(pp.tabs.last() == x);
    if t.held_once(x.id) {
        assert(forall|k: int, n: int|
            0 <= k < l.len() && 0 <= n < l[k].tabs.len() && (#[trigger] l[k].tabs[n]).id == x.id
                ==> k == i && n == a);
        lemma_move_holders(l, i, j);
        lemma_holders_kept(l2, j, x.id);
        lemma_first_pane(l, PaneQuery::Id(target));
        assert(pp.id == target);
        assert(u.leaves() == nonempty_panes(l2));
        assert forall|k: int|
            0 <= k < u.leaves().len() && holds_window((#[trigger] u.leaves()[k]).tabs, x.id)
                implies u.leaves()[k].id == target by {
            assert(nonempty_panes(l2)[k] == l2[j]);
        }
        lemma_first_pane(u.leaves(), PaneQuery::Window(x.id));
        assert(u.leaves()[m].tabs[u.leaves()[m].tabs.len() - 1] == x);
        assert(PaneQuery::Window(x.id).holds(u.leaves()[m]));
        let f = u.first(PaneQuery::Window(x.id))->0;
        assert(PaneQuery::Window(x.id).holds(u.leaves()[f]));
        assert(u.leaves()[f].id == target);
    }
}

} // verus!
