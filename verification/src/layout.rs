//! Snap zones for drag-to-tile: which zone a cursor position selects, and
//! what a drop onto a pane zone does to the tree.
//!
//! Whether the cursor lies within a pane or near a screen edge is measured
//! in screen points outside this crate; the decisions taken from those
//! measurements are made here.

use vstd::prelude::*;
use crate::actions::TilingMode;
use crate::ids::NodeId;
use crate::types::Orientation;

verus! {

/// Snap zone detection for drag-to-tile.
#[derive(Debug, Clone, Copy, PartialEq, Eq, Structural)]
pub enum SnapZone {
    LeftHalf,
    RightHalf,
    TopHalf,
    BottomHalf,
    TopLeftQuarter,
    TopRightQuarter,
    BottomLeftQuarter,
    BottomRightQuarter,
    Maximize,
    /// Split an existing pane on a given side.
    SplitLeft(NodeId),
    SplitRight(NodeId),
    SplitTop(NodeId),
    SplitBottom(NodeId),
    /// Stack onto an existing pane (center of pane).
    Stack(NodeId),
}

/// Where the cursor lies inside a pane, as the comparisons of its relative
/// position (0 at the pane's left or top edge, 1 at the right or bottom
/// edge) with the quarter lines.
#[derive(Debug, Clone, Copy, PartialEq, Eq, Structural)]
pub struct PaneOffset {
    /// Relative x below 0.25.
    pub x_below_quarter: bool,
    /// Relative x above 0.25.
    pub x_above_quarter: bool,
    /// Relative x below 0.75.
    pub x_below_three_quarters: bool,
    /// Relative x above 0.75.
    pub x_above_three_quarters: bool,
    /// Relative y below 0.25.
    pub y_below_quarter: bool,
    /// Relative y above 0.25.
    pub y_above_quarter: bool,
    /// Relative y below 0.75.
    pub y_below_three_quarters: bool,
    /// Relative y above 0.75.
    pub y_above_three_quarters: bool,
}

/// How close the cursor is to the screen's edges: within the edge
/// threshold of each edge, and within the corner radius of the left and
/// right edges.
#[derive(Debug, Clone, Copy, PartialEq, Eq, Structural)]
pub struct EdgeProximity {
    pub near_left: bool,
    pub near_right: bool,
    pub near_top: bool,
    pub near_bottom: bool,
    pub near_left_corner: bool,
    pub near_right_corner: bool,
}

/// The zone a cursor inside pane `id` selects: the middle stacks onto the
/// pane, the outer quarters split it on that side.
pub open spec fn pane_zone_of(id: NodeId, o: PaneOffset) -> Option<SnapZone> {
    if o.x_above_quarter && o.x_below_three_quarters && o.y_above_quarter
        && o.y_below_three_quarters {
        Some(SnapZone::Stack(id))
    } else if o.x_below_quarter {
        Some(SnapZone::SplitLeft(id))
    } else if o.x_above_three_quarters {
        Some(SnapZone::SplitRight(id))
    } else if o.y_below_quarter {
        Some(SnapZone::SplitTop(id))
    } else if o.y_above_three_quarters {
        Some(SnapZone::SplitBottom(id))
    } else {
        None
    }
}

/// The zone selected near the screen's edges: corners first, then the top
/// edge (maximize), then the left, right and bottom edges.
pub open spec fn edge_zone_of(e: EdgeProximity) -> Option<SnapZone> {
    if e.near_top && e.near_left_corner {
        Some(SnapZone::TopLeftQuarter)
    } else if e.near_top && e.near_right_corner {
        Some(SnapZone::TopRightQuarter)
    } else if e.near_bottom && e.near_left_corner {
        Some(SnapZone::BottomLeftQuarter)
    } else if e.near_bottom && e.near_right_corner {
        Some(SnapZone::BottomRightQuarter)
    } else if e.near_top {
        Some(SnapZone::Maximize)
    } else if e.near_left {
        Some(SnapZone::LeftHalf)
    } else if e.near_right {
        Some(SnapZone::RightHalf)
    } else if e.near_bottom {
        Some(SnapZone::BottomHalf)
    } else {
        None
    }
}

/// The zone selected by the first pane under the cursor that selects one,
/// or else by the screen's edges.
pub open spec fn zone_of(hits: Seq<(NodeId, PaneOffset)>, e: EdgeProximity) -> Option<SnapZone>
    decreases hits.len(),
{
    if hits.len() == 0 {
        edge_zone_of(e)
    } else {
        match pane_zone_of(hits[0].0, hits[0].1) {
            Some(z) => Some(z),
            None => zone_of(hits.drop_first(), e),
        }
    }
}

/// The zone a cursor inside pane `id` selects.
pub fn pane_zone(id: NodeId, o: PaneOffset) -> (r: Option<SnapZone>)
    ensures
        r == pane_zone_of(id, o),
{
    if o.x_above_quarter && o.x_below_three_quarters && o.y_above_quarter
        && o.y_below_three_quarters {
        Some(SnapZone::Stack(id))
    } else if o.x_below_quarter {
        Some(SnapZone::SplitLeft(id))
    } else if o.x_above_three_quarters {
        Some(SnapZone::SplitRight(id))
    } else if o.y_below_quarter {
        Some(SnapZone::SplitTop(id))
    } else if o.y_above_three_quarters {
        Some(SnapZone::SplitBottom(id))
    } else {
        None
    }
}

/// The zone selected near the screen's edges.
pub fn edge_zone(e: EdgeProximity) -> (r: Option<SnapZone>)
    ensures
        r == edge_zone_of(e),
{
    if e.near_top && e.near_left_corner {
        Some(SnapZone::TopLeftQuarter)
    } else if e.near_top && e.near_right_corner {
        Some(SnapZone::TopRightQuarter)
    } else if e.near_bottom && e.near_left_corner {
        Some(SnapZone::BottomLeftQuarter)
    } else if e.near_bottom && e.near_right_corner {
        Some(SnapZone::BottomRightQuarter)
    } else if e.near_top {
        Some(SnapZone::Maximize)
    } else if e.near_left {
        Some(SnapZone::LeftHalf)
    } else if e.near_right {
        Some(SnapZone::RightHalf)
    } else if e.near_bottom {
        Some(SnapZone::BottomHalf)
    } else {
        None
    }
}

/// Detect which snap zone the cursor is in: `hits` are the panes that
/// contain the cursor, in layout order, with the cursor's offset in each;
/// managed panes take priority over the screen's edges.
pub fn detect_zone(hits: &Vec<(NodeId, PaneOffset)>, edges: EdgeProximity) -> (r: Option<SnapZone>)
    ensures
        r == zone_of(hits@, edges),
{
    let mut i: usize = 0;
    assert(hits@.subrange(0, hits.len() as int) =~= hits@);
    while i < hits.len()
        invariant
            i <= hits.len(),
            zone_of(hits@, edges) == zone_of(hits@.subrange(i as int, hits.len() as int), edges),
        decreases hits.len() - i,
    {
        let (id, o) = hits[i];
        let ghost rest = hits@.subrange(i as int, hits.len() as int);
        assert(rest[0] == hits@[i as int]);
        assert(rest.drop_first() =~= hits@.subrange(i + 1, hits.len() as int));
        if let Some(z) = pane_zone(id, o) {
            return Some(z);
        }
        i = i + 1;
    }
    assert(hits@.subrange(i as int, hits.len() as int) =~= Seq::<(NodeId, PaneOffset)>::empty());
    edge_zone(edges)
}

/// What a drop onto a pane zone does in the tree: the pane to split, the
/// split's orientation, and whether the dropped window takes the second
/// slot (right or bottom) rather than the first.
pub open spec fn split_plan_of(zone: SnapZone, mode: TilingMode) -> Option<(NodeId, Orientation, bool)> {
    if mode != TilingMode::Bsp {
        None
    } else {
        match zone {
            SnapZone::SplitLeft(p) => Some((p, Orientation::Horizontal, false)),
            SnapZone::SplitRight(p) => Some((p, Orientation::Horizontal, true)),
            SnapZone::SplitTop(p) => Some((p, Orientation::Vertical, false)),
            SnapZone::SplitBottom(p) => Some((p, Orientation::Vertical, true)),
            _ => None,
        }
    }
}

/// How a drop onto `zone` changes the tree in tiling mode `mode`: only a
/// pane-side zone in BSP mode splits a pane; every other drop only moves
/// the window.
pub fn split_plan(zone: SnapZone, mode: TilingMode) -> (r: Option<(NodeId, Orientation, bool)>)
    ensures
        r == split_plan_of(zone, mode),
{
    match mode {
        TilingMode::Snap => None,
        TilingMode::Bsp => match zone {
            SnapZone::SplitLeft(p) => Some((p, Orientation::Horizontal, false)),
            SnapZone::SplitRight(p) => Some((p, Orientation::Horizontal, true)),
            SnapZone::SplitTop(p) => Some((p, Orientation::Vertical, false)),
            SnapZone::SplitBottom(p) => Some((p, Orientation::Vertical, true)),
            _ => None,
        },
    }
}

} // verus!
