//! Global hotkeys: the default Rectangle-style bindings, the identifiers
//! under which they are registered, and the dispatch of a pressed hotkey to
//! its action.  Registration itself goes through Carbon and stays outside
//! this crate.

use vstd::prelude::*;
use std::collections::HashMap;
use crate::keycodes::{
    CMD_KEY, CONTROL_KEY, OPTION_KEY, SHIFT_KEY, K_VK_C, K_VK_D, K_VK_DELETE, K_VK_DOWN_ARROW, K_VK_E, K_VK_EQUAL, K_VK_F, K_VK_G, K_VK_I, K_VK_J, K_VK_K, K_VK_LEFT_ARROW, K_VK_R, K_VK_RETURN, K_VK_RIGHT_ARROW, K_VK_T, K_VK_U, K_VK_UP_ARROW, K_VK_Z,
};
use crate::types::TileAction;

verus! {

broadcast use vstd::std_specs::hash::group_hash_axioms;

/// The identifier that Carbon hands back when a registered hotkey is pressed.
#[derive(Debug, Clone, Copy, PartialEq, Eq, Structural)]
pub struct EventHotKeyID {
    pub signature: u32,
    pub id: u32,
}

/// Our signature for identifying hotkeys: the bytes `TILE` read big-endian.
pub const TILE_SIGNATURE: u32 = 0x5449_4C45;

/// Default Rectangle-compatible keybindings as (key code, modifiers, action).
pub open spec fn rectangle_bindings() -> Seq<(u32, u32, TileAction)> {
    seq![
        (K_VK_LEFT_ARROW, CONTROL_KEY | OPTION_KEY, TileAction::LeftHalf),
        (K_VK_RIGHT_ARROW, CONTROL_KEY | OPTION_KEY, TileAction::RightHalf),
        (K_VK_UP_ARROW, CONTROL_KEY | OPTION_KEY, TileAction::TopHalf),
        (K_VK_DOWN_ARROW, CONTROL_KEY | OPTION_KEY, TileAction::BottomHalf),
        (K_VK_D, CONTROL_KEY | OPTION_KEY, TileAction::LeftThird),
        (K_VK_F, CONTROL_KEY | OPTION_KEY, TileAction::CenterThird),
        (K_VK_G, CONTROL_KEY | OPTION_KEY, TileAction::RightThird),
        (K_VK_E, CONTROL_KEY | OPTION_KEY, TileAction::LeftTwoThirds),
        (K_VK_R, CONTROL_KEY | OPTION_KEY, TileAction::CenterTwoThirds),
        (K_VK_T, CONTROL_KEY | OPTION_KEY, TileAction::RightTwoThirds),
        (K_VK_U, CONTROL_KEY | OPTION_KEY, TileAction::TopLeftQuarter),
        (K_VK_I, CONTROL_KEY | OPTION_KEY, TileAction::TopRightQuarter),
        (K_VK_J, CONTROL_KEY | OPTION_KEY, TileAction::BottomLeftQuarter),
        (K_VK_K, CONTROL_KEY | OPTION_KEY, TileAction::BottomRightQuarter),
        (K_VK_RETURN, CONTROL_KEY | OPTION_KEY, TileAction::Maximize),
        (K_VK_C, CONTROL_KEY | OPTION_KEY, TileAction::Center),
        (K_VK_DELETE, CONTROL_KEY | OPTION_KEY, TileAction::Restore),
        (K_VK_EQUAL, CONTROL_KEY | OPTION_KEY, TileAction::EqualizeAll),
        (K_VK_Z, CONTROL_KEY | OPTION_KEY, TileAction::ToggleZoom),
        (K_VK_LEFT_ARROW, CONTROL_KEY | OPTION_KEY | SHIFT_KEY, TileAction::MovePaneLeft),
        (K_VK_RIGHT_ARROW, CONTROL_KEY | OPTION_KEY | SHIFT_KEY, TileAction::MovePaneRight),
        (K_VK_UP_ARROW, CONTROL_KEY | OPTION_KEY | SHIFT_KEY, TileAction::MovePaneUp),
        (K_VK_DOWN_ARROW, CONTROL_KEY | OPTION_KEY | SHIFT_KEY, TileAction::MovePaneDown),
        (K_VK_LEFT_ARROW, CONTROL_KEY | OPTION_KEY | CMD_KEY, TileAction::SwapPaneLeft),
        (K_VK_RIGHT_ARROW, CONTROL_KEY | OPTION_KEY | CMD_KEY, TileAction::SwapPaneRight),
        (K_VK_UP_ARROW, CONTROL_KEY | OPTION_KEY | CMD_KEY, TileAction::SwapPaneUp),
        (K_VK_DOWN_ARROW, CONTROL_KEY | OPTION_KEY | CMD_KEY, TileAction::SwapPaneDown),
    ]
}

/// Default Rectangle-compatible keybindings.
pub fn default_bindings() -> (r: Vec<(u32, u32, TileAction)>)
    ensures
        r@ == rectangle_bindings(),
{
    let r = vec![
        (K_VK_LEFT_ARROW, CONTROL_KEY | OPTION_KEY, TileAction::LeftHalf),
        (K_VK_RIGHT_ARROW, CONTROL_KEY | OPTION_KEY, TileAction::RightHalf),
        (K_VK_UP_ARROW, CONTROL_KEY | OPTION_KEY, TileAction::TopHalf),
        (K_VK_DOWN_ARROW, CONTROL_KEY | OPTION_KEY, TileAction::BottomHalf),
        (K_VK_D, CONTROL_KEY | OPTION_KEY, TileAction::LeftThird),
        (K_VK_F, CONTROL_KEY | OPTION_KEY, TileAction::CenterThird),
        (K_VK_G, CONTROL_KEY | OPTION_KEY, TileAction::RightThird),
        (K_VK_E, CONTROL_KEY | OPTION_KEY, TileAction::LeftTwoThirds),
        (K_VK_R, CONTROL_KEY | OPTION_KEY, TileAction::CenterTwoThirds),
        (K_VK_T, CONTROL_KEY | OPTION_KEY, TileAction::RightTwoThirds),
        (K_VK_U, CONTROL_KEY | OPTION_KEY, TileAction::TopLeftQuarter),
        (K_VK_I, CONTROL_KEY | OPTION_KEY, TileAction::TopRightQuarter),
        (K_VK_J, CONTROL_KEY | OPTION_KEY, TileAction::BottomLeftQuarter),
        (K_VK_K, CONTROL_KEY | OPTION_KEY, TileAction::BottomRightQuarter),
        (K_VK_RETURN, CONTROL_KEY | OPTION_KEY, TileAction::Maximize),
        (K_VK_C, CONTROL_KEY | OPTION_KEY, TileAction::Center),
        (K_VK_DELETE, CONTROL_KEY | OPTION_KEY, TileAction::Restore),
        (K_VK_EQUAL, CONTROL_KEY | OPTION_KEY, TileAction::EqualizeAll),
        (K_VK_Z, CONTROL_KEY | OPTION_KEY, TileAction::ToggleZoom),
        (K_VK_LEFT_ARROW, CONTROL_KEY | OPTION_KEY | SHIFT_KEY, TileAction::MovePaneLeft),
        (K_VK_RIGHT_ARROW, CONTROL_KEY | OPTION_KEY | SHIFT_KEY, TileAction::MovePaneRight),
        (K_VK_UP_ARROW, CONTROL_KEY | OPTION_KEY | SHIFT_KEY, TileAction::MovePaneUp),
        (K_VK_DOWN_ARROW, CONTROL_KEY | OPTION_KEY | SHIFT_KEY, TileAction::MovePaneDown),
        (K_VK_LEFT_ARROW, CONTROL_KEY | OPTION_KEY | CMD_KEY, TileAction::SwapPaneLeft),
        (K_VK_RIGHT_ARROW, CONTROL_KEY | OPTION_KEY | CMD_KEY, TileAction::SwapPaneRight),
        (K_VK_UP_ARROW, CONTROL_KEY | OPTION_KEY | CMD_KEY, TileAction::SwapPaneUp),
        (K_VK_DOWN_ARROW, CONTROL_KEY | OPTION_KEY | CMD_KEY, TileAction::SwapPaneDown),
    ];
    assert(r@ =~= rectangle_bindings());
    r
}

/// The identifier under which the binding at position `i` is registered.
pub open spec fn hotkey_id_for(i: int) -> EventHotKeyID {
    EventHotKeyID { signature: TILE_SIGNATURE, id: i as u32 }
}

/// The (key code, modifiers, identifier) triples to register, one for each
/// binding, identified by the binding's position.
pub fn registrations(bindings: &Vec<(u32, u32, TileAction)>) -> (r: Vec<(u32, u32, EventHotKeyID)>)
    requires
        bindings.len() <= u32::MAX,
    ensures
        r.len() == bindings.len(),
        forall|i: int|
            0 <= i < r.len() ==> #[trigger] r@[i] == (bindings@[i].0, bindings@[i].1, hotkey_id_for(i)),
{
    let mut r: Vec<(u32, u32, EventHotKeyID)> = Vec::new();
    let mut i: usize = 0;
    while i < bindings.len()
        invariant
            bindings.len() <= u32::MAX,
            i <= bindings.len(),
            r.len() == i,
            forall|j: int|
                0 <= j < i ==> #[trigger] r@[j] == (bindings@[j].0, bindings@[j].1, hotkey_id_for(j)),
        decreases bindings.len() - i,
    {
        let (keycode, modifiers, _) = bindings[i];
        r.push((keycode, modifiers, EventHotKeyID { signature: TILE_SIGNATURE, id: i as u32 }));
        i = i + 1;
    }
    r
}

/// The table of actions by hotkey identifier for `bindings`: the binding at
/// position `i` is registered under identifier `i`.
pub open spec fn table_of(bindings: Seq<(u32, u32, TileAction)>) -> Map<u32, TileAction> {
    Map::new(|k: u32| k < bindings.len(), |k: u32| bindings[k as int].2)
}

/// The action that a pressed hotkey selects from `table`: none unless it
/// carries our signature and an identifier in the table.
pub open spec fn dispatch(table: Map<u32, TileAction>, hotkey: EventHotKeyID) -> Option<TileAction> {
    if hotkey.signature == TILE_SIGNATURE && table.contains_key(hotkey.id) {
        Some(table[hotkey.id])
    } else {
        None
    }
}

/// The actions of registered hotkeys, by hotkey identifier.
#[derive(Debug)]
pub struct HotkeyTable {
    action_map: HashMap<u32, TileAction>,
}

impl View for HotkeyTable {
    type V = Map<u32, TileAction>;

    closed spec fn view(&self) -> Map<u32, TileAction> {
        self.action_map@
    }
}

impl HotkeyTable {
    /// The table that maps the position of each binding to its action.
    pub fn new(bindings: &Vec<(u32, u32, TileAction)>) -> (t: Self)
        requires
            bindings.len() <= u32::MAX,
        ensures
            t@ == table_of(bindings@),
    {
        let mut action_map: HashMap<u32, TileAction> = HashMap::new();
        let mut i: usize = 0;
        while i < bindings.len()
            invariant
                bindings.len() <= u32::MAX,
                i <= bindings.len(),
                action_map@ == Map::new(|k: u32| k < i, |k: u32| bindings@[k as int].2),
            decreases bindings.len() - i,
        {
            let (_, _, action) = bindings[i];
            action_map.insert(i as u32, action);
            assert(action_map@ =~= Map::new(|k: u32| k < i + 1, |k: u32| bindings@[k as int].2));
            i = i + 1;
        }
        HotkeyTable { action_map }
    }

    /// The action of a pressed hotkey: none unless it carries our signature
    /// and an identifier in the table.
    pub fn action_for(&self, hotkey: EventHotKeyID) -> (r: Option<TileAction>)
        ensures
            r == dispatch(self@, hotkey),
    {
        if hotkey.signature != TILE_SIGNATURE {
            return None;
        }
        match self.action_map.get(&hotkey.id) {
            Some(a) => Some(*a),
            None => None,
        }
    }
}

} // verus!
