//! Node and window identifiers and the source that hands them out.

use vstd::prelude::*;

verus! {

/// Unique identifier for a tree node.
#[derive(Debug, Clone, Copy, PartialEq, Eq, Hash, Structural)]
pub struct NodeId(pub u64);

/// Unique identifier for a managed window.
#[derive(Debug, Clone, Copy, PartialEq, Eq, Hash, Structural)]
pub struct WindowId(pub u64);

/// Hands out fresh node and window identifiers.
///
/// Both counters start at 1 and advance by one for every identifier handed
/// out, wrapping around at `u64::MAX` like an atomic `fetch_add`.
#[derive(Debug, Clone)]
pub struct IdSource {
    next_node: u64,
    next_window: u64,
}

/// The counter value that follows `n`.
pub open spec fn bump(n: u64) -> u64 {
    if n == u64::MAX { 0 } else { (n + 1) as u64 }
}

impl IdSource {
    /// The value the next node identifier will carry.
    pub closed spec fn next_node(&self) -> u64 {
        self.next_node
    }

    /// The value the next window identifier will carry.
    pub closed spec fn next_window(&self) -> u64 {
        self.next_window
    }

    /// The value the next node identifier will carry.
    pub fn peek_node(&self) -> (r: u64)
        ensures
            r == self.next_node(),
    {
        self.next_node
    }

    /// A source whose first node and first window identifier are both 1.
    pub fn new() -> (s: Self)
        ensures
            s.next_node() == 1,
            s.next_window() == 1,
    {
        IdSource { next_node: 1, next_window: 1 }
    }
}

impl NodeId {
    /// Take the next node identifier from `ids`.
    pub fn next(ids: &mut IdSource) -> (id: Self)
        ensures
            id.0 == old(ids).next_node(),
            final(ids).next_node() == bump(old(ids).next_node()),
            final(ids).next_window() == old(ids).next_window(),
    {
        let id = ids.next_node;
        ids.next_node = ids.next_node.wrapping_add(1);
        NodeId(id)
    }
}

impl WindowId {
    /// Take the next window identifier from `ids`.
    pub fn next(ids: &mut IdSource) -> (id: Self)
        ensures
            id.0 == old(ids).next_window(),
            final(ids).next_window() == bump(old(ids).next_window()),
            final(ids).next_node() == old(ids).next_node(),
    {
        let id = ids.next_window;
        ids.next_window = ids.next_window.wrapping_add(1);
        WindowId(id)
    }
}

/// The counter value after `k` identifiers were drawn from value `n`.
pub open spec fn bumped(n: u64, k: nat) -> u64
    decreases k,
{
    if k == 0 {
        n
    } else {
        bump(bumped(n, (k - 1) as nat))
    }
}

/// Drawing `k` identifiers from `n` without passing `u64::MAX` counts up by `k`.
proof fn lemma_bumped(n: u64, k: nat)
    requires
        n + k <= u64::MAX,
    ensures
        bumped(n, k) == n + k,
    decreases k,
{
    if k > 0 {
        lemma_bumped(n, (k - 1) as nat);
    }
}

/// Identifiers drawn one after another from a counter (of nodes or of
/// windows) that does not pass `u64::MAX` are pairwise distinct: the `i`-th
/// and the `j`-th draw differ.
pub proof fn law_fresh_ids_distinct(n: u64, i: nat, j: nat)
    requires
        i != j,
        n + i <= u64::MAX,
        n + j <= u64::MAX,
    ensures
        bumped(n, i) != bumped(n, j),
{
    lemma_bumped(n, i);
    lemma_bumped(n, j);
}

} // verus!
