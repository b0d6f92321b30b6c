//! Keybinding configuration: the default bindings, action names, and the
//! text shown for bindings and actions in the settings.

use vstd::prelude::*;
use crate::keycodes::{
    CMD_KEY, CONTROL_KEY, K_VK_0, K_VK_1, K_VK_2, K_VK_3, K_VK_4, K_VK_5, K_VK_6, K_VK_7, K_VK_8,
    K_VK_9, K_VK_A, K_VK_B, K_VK_C, K_VK_D, K_VK_DELETE, K_VK_DOWN_ARROW, K_VK_E, K_VK_EQUAL,
    K_VK_ESCAPE, K_VK_F, K_VK_G, K_VK_H, K_VK_I, K_VK_J, K_VK_K, K_VK_L, K_VK_LEFT_ARROW, K_VK_M,
    K_VK_MINUS, K_VK_N, K_VK_O, K_VK_P, K_VK_Q, K_VK_R, K_VK_RETURN, K_VK_RIGHT_ARROW, K_VK_S,
    K_VK_SPACE, K_VK_T, K_VK_TAB, K_VK_U, K_VK_UP_ARROW, K_VK_V, K_VK_W, K_VK_X, K_VK_Y, K_VK_Z,
    OPTION_KEY, SHIFT_KEY,
};
use crate::text::{
    char_is_uppercase, contains_seq, contains_str, is_uppercase, spaced_before_capitals,
    starts_with_seq, starts_with_str, str_eq,
};
use crate::types::TileAction;

verus! {

/// A keybinding: Carbon modifier flags and a virtual key code.
#[derive(Debug, Clone, Copy, PartialEq, Eq, Structural)]
pub struct KeyBinding {
    pub keycode: u32,
    pub modifiers: u32,
}

/// The name under which an action is stored in the configuration.
pub open spec fn name_of(a: TileAction) -> Seq<char> {
    match a {
        TileAction::LeftHalf => "LeftHalf"@,
        TileAction::RightHalf => "RightHalf"@,
        TileAction::TopHalf => "TopHalf"@,
        TileAction::BottomHalf => "BottomHalf"@,
        TileAction::LeftThird => "LeftThird"@,
        TileAction::CenterThird => "CenterThird"@,
        TileAction::RightThird => "RightThird"@,
        TileAction::LeftTwoThirds => "LeftTwoThirds"@,
        TileAction::CenterTwoThirds => "CenterTwoThirds"@,
        TileAction::RightTwoThirds => "RightTwoThirds"@,
        TileAction::TopLeftQuarter => "TopLeftQuarter"@,
        TileAction::TopRightQuarter => "TopRightQuarter"@,
        TileAction::BottomLeftQuarter => "BottomLeftQuarter"@,
        TileAction::BottomRightQuarter => "BottomRightQuarter"@,
        TileAction::Maximize => "Maximize"@,
        TileAction::Center => "Center"@,
        TileAction::Restore => "Restore"@,
        TileAction::EqualizeAll => "EqualizeAll"@,
        TileAction::ToggleZoom => "ToggleZoom"@,
        TileAction::MovePaneLeft => "MovePaneLeft"@,
        TileAction::MovePaneRight => "MovePaneRight"@,
        TileAction::MovePaneUp => "MovePaneUp"@,
        TileAction::MovePaneDown => "MovePaneDown"@,
        TileAction::SwapPaneLeft => "SwapPaneLeft"@,
        TileAction::SwapPaneRight => "SwapPaneRight"@,
        TileAction::SwapPaneUp => "SwapPaneUp"@,
        TileAction::SwapPaneDown => "SwapPaneDown"@,
        TileAction::StackNext => "StackNext"@,
        TileAction::StackPrev => "StackPrev"@,
        TileAction::SnapToNearest => "SnapToNearest"@,
    }
}

/// The action whose name is `s`, if any.
pub open spec fn action_named(s: Seq<char>) -> Option<TileAction> {
    if exists|a: TileAction| name_of(a) == s {
        Some(choose|a: TileAction| name_of(a) == s)
    } else {
        None
    }
}

/// Every action, in declaration order.
pub open spec fn every_action() -> Seq<TileAction> {
    seq![
        TileAction::LeftHalf,
        TileAction::RightHalf,
        TileAction::TopHalf,
        TileAction::BottomHalf,
        TileAction::LeftThird,
        TileAction::CenterThird,
        TileAction::RightThird,
        TileAction::LeftTwoThirds,
        TileAction::CenterTwoThirds,
        TileAction::RightTwoThirds,
        TileAction::TopLeftQuarter,
        TileAction::TopRightQuarter,
        TileAction::BottomLeftQuarter,
        TileAction::BottomRightQuarter,
        TileAction::Maximize,
        TileAction::Center,
        TileAction::Restore,
        TileAction::EqualizeAll,
        TileAction::ToggleZoom,
        TileAction::MovePaneLeft,
        TileAction::MovePaneRight,
        TileAction::MovePaneUp,
        TileAction::MovePaneDown,
        TileAction::SwapPaneLeft,
        TileAction::SwapPaneRight,
        TileAction::SwapPaneUp,
        TileAction::SwapPaneDown,
        TileAction::StackNext,
        TileAction::StackPrev,
        TileAction::SnapToNearest,
    ]
}

/// Every action occurs in `every_action()`.
pub proof fn lemma_every_action(a: TileAction)
    ensures
        exists|i: int| 0 <= i < every_action().len() && every_action()[i] == a,
{
    let s = every_action();
    match a {
        TileAction::LeftHalf => assert(s[0] == a),
        TileAction::RightHalf => assert(s[1] == a),
        TileAction::TopHalf => assert(s[2] == a),
        TileAction::BottomHalf => assert(s[3] == a),
        TileAction::LeftThird => assert(s[4] == a),
        TileAction::CenterThird => assert(s[5] == a),
        TileAction::RightThird => assert(s[6] == a),
        TileAction::LeftTwoThirds => assert(s[7] == a),
        TileAction::CenterTwoThirds => assert(s[8] == a),
        TileAction::RightTwoThirds => assert(s[9] == a),
        TileAction::TopLeftQuarter => assert(s[10] == a),
        TileAction::TopRightQuarter => assert(s[11] == a),
        TileAction::BottomLeftQuarter => assert(s[12] == a),
        TileAction::BottomRightQuarter => assert(s[13] == a),
        TileAction::Maximize => assert(s[14] == a),
        TileAction::Center => assert(s[15] == a),
        TileAction::Restore => assert(s[16] == a),
        TileAction::EqualizeAll => assert(s[17] == a),
        TileAction::ToggleZoom => assert(s[18] == a),
        TileAction::MovePaneLeft => assert(s[19] == a),
        TileAction::MovePaneRight => assert(s[20] == a),
        TileAction::MovePaneUp => assert(s[21] == a),
        TileAction::MovePaneDown => assert(s[22] == a),
        TileAction::SwapPaneLeft => assert(s[23] == a),
        TileAction::SwapPaneRight => assert(s[24] == a),
        TileAction::SwapPaneUp => assert(s[25] == a),
        TileAction::SwapPaneDown => assert(s[26] == a),
        TileAction::StackNext => assert(s[27] == a),
        TileAction::StackPrev => assert(s[28] == a),
        TileAction::SnapToNearest => assert(s[29] == a),
    }
}

/// Distinct actions have distinct names.
pub proof fn lemma_names_distinct(a: TileAction, b: TileAction)
    requires
        name_of(a) == name_of(b),
    ensures
        a == b,
{
    reveal_strlit("LeftHalf");
    reveal_strlit("RightHalf");
    reveal_strlit("TopHalf");
    reveal_strlit("BottomHalf");
    reveal_strlit("LeftThird");
    reveal_strlit("CenterThird");
    reveal_strlit("RightThird");
    reveal_strlit("LeftTwoThirds");
    reveal_strlit("CenterTwoThirds");
    reveal_strlit("RightTwoThirds");
    reveal_strlit("TopLeftQuarter");
    reveal_strlit("TopRightQuarter");
    reveal_strlit("BottomLeftQuarter");
    reveal_strlit("BottomRightQuarter");
    reveal_strlit("Maximize");
    reveal_strlit("Center");
    reveal_strlit("Restore");
    reveal_strlit("EqualizeAll");
    reveal_strlit("ToggleZoom");
    reveal_strlit("MovePaneLeft");
    reveal_strlit("MovePaneRight");
    reveal_strlit("MovePaneUp");
    reveal_strlit("MovePaneDown");
    reveal_strlit("SwapPaneLeft");
    reveal_strlit("SwapPaneRight");
    reveal_strlit("SwapPaneUp");
    reveal_strlit("SwapPaneDown");
    reveal_strlit("StackNext");
    reveal_strlit("StackPrev");
    reveal_strlit("SnapToNearest");
    // The names differ in their length, their first character or their
    // last but one character.
    let (x, y) = (name_of(a), name_of(b));
    assert(x.len() == y.len());
    assert(x[0] == y[0]);
    assert(x[x.len() - 2] == y[y.len() - 2]);
}

/// Convert a TileAction to its serialized name.
pub fn action_name(action: TileAction) -> (r: &'static str)
    ensures
        r@ == name_of(action),
{
    match action {
        TileAction::LeftHalf => "LeftHalf",
        TileAction::RightHalf => "RightHalf",
        TileAction::TopHalf => "TopHalf",
        TileAction::BottomHalf => "BottomHalf",
        TileAction::LeftThird => "LeftThird",
        TileAction::CenterThird => "CenterThird",
        TileAction::RightThird => "RightThird",
        TileAction::LeftTwoThirds => "LeftTwoThirds",
        TileAction::CenterTwoThirds => "CenterTwoThirds",
        TileAction::RightTwoThirds => "RightTwoThirds",
        TileAction::TopLeftQuarter => "TopLeftQuarter",
        TileAction::TopRightQuarter => "TopRightQuarter",
        TileAction::BottomLeftQuarter => "BottomLeftQuarter",
        TileAction::BottomRightQuarter => "BottomRightQuarter",
        TileAction::Maximize => "Maximize",
        TileAction::Center => "Center",
        TileAction::Restore => "Restore",
        TileAction::EqualizeAll => "EqualizeAll",
        TileAction::ToggleZoom => "ToggleZoom",
        TileAction::MovePaneLeft => "MovePaneLeft",
        TileAction::MovePaneRight => "MovePaneRight",
        TileAction::MovePaneUp => "MovePaneUp",
        TileAction::MovePaneDown => "MovePaneDown",
        TileAction::SwapPaneLeft => "SwapPaneLeft",
        TileAction::SwapPaneRight => "SwapPaneRight",
        TileAction::SwapPaneUp => "SwapPaneUp",
        TileAction::SwapPaneDown => "SwapPaneDown",
        TileAction::StackNext => "StackNext",
        TileAction::StackPrev => "StackPrev",
        TileAction::SnapToNearest => "SnapToNearest",
    }
}

fn all_actions() -> (v: Vec<TileAction>)
    ensures
        v@ == every_action(),
{
    let v = vec![
        TileAction::LeftHalf,
        TileAction::RightHalf,
        TileAction::TopHalf,
        TileAction::BottomHalf,
        TileAction::LeftThird,
        TileAction::CenterThird,
        TileAction::RightThird,
        TileAction::LeftTwoThirds,
        TileAction::CenterTwoThirds,
        TileAction::RightTwoThirds,
        TileAction::TopLeftQuarter,
        TileAction::TopRightQuarter,
        TileAction::BottomLeftQuarter,
        TileAction::BottomRightQuarter,
        TileAction::Maximize,
        TileAction::Center,
        TileAction::Restore,
        TileAction::EqualizeAll,
        TileAction::ToggleZoom,
        TileAction::MovePaneLeft,
        TileAction::MovePaneRight,
        TileAction::MovePaneUp,
        TileAction::MovePaneDown,
        TileAction::SwapPaneLeft,
        TileAction::SwapPaneRight,
        TileAction::SwapPaneUp,
        TileAction::SwapPaneDown,
        TileAction::StackNext,
        TileAction::StackPrev,
        TileAction::SnapToNearest,
    ];
    assert(v@ =~= every_action());
    v
}

/// Convert a name back to a TileAction.
pub fn action_from_name(name: &str) -> (r: Option<TileAction>)
    ensures
        r == action_named(name@),
        match r {
            Some(a) => name_of(a) == name@,
            None => forall|a: TileAction| name_of(a) != name@,
        },
{
    let all = all_actions();
    let mut i: usize = 0;
    while i < all.len()
        invariant
            all@ == every_action(),
            i <= all.len(),
            forall|j: int| 0 <= j < i ==> name_of(#[trigger] all@[j]) != name@,
        decreases all.len() - i,
    {
        let a = all[i];
        if str_eq(name, action_name(a)) {
            proof {
                let c = choose|b: TileAction| name_of(b) == name@;
                lemma_names_distinct(c, a);
            }
            return Some(a);
        }
        i = i + 1;
    }
    proof {
        assert forall|a: TileAction| name_of(a) != name@ by {
            lemma_every_action(a);
            let k = choose|k: int| 0 <= k < every_action().len() && every_action()[k] == a;
            assert(name_of(all@[k]) != name@);
        }
    }
    None
}

/// The default bindings as (action name, key code, modifiers).
pub open spec fn default_binding_table() -> Seq<(Seq<char>, u32, u32)> {
    seq![
        ("LeftHalf"@, K_VK_LEFT_ARROW, CONTROL_KEY | OPTION_KEY),
        ("RightHalf"@, K_VK_RIGHT_ARROW, CONTROL_KEY | OPTION_KEY),
        ("TopHalf"@, K_VK_UP_ARROW, CONTROL_KEY | OPTION_KEY),
        ("BottomHalf"@, K_VK_DOWN_ARROW, CONTROL_KEY | OPTION_KEY),
        ("LeftThird"@, K_VK_D, CONTROL_KEY | OPTION_KEY),
        ("CenterThird"@, K_VK_F, CONTROL_KEY | OPTION_KEY),
        ("RightThird"@, K_VK_G, CONTROL_KEY | OPTION_KEY),
        ("LeftTwoThirds"@, K_VK_E, CONTROL_KEY | OPTION_KEY),
        ("CenterTwoThirds"@, K_VK_R, CONTROL_KEY | OPTION_KEY),
        ("RightTwoThirds"@, K_VK_T, CONTROL_KEY | OPTION_KEY),
        ("TopLeftQuarter"@, K_VK_U, CONTROL_KEY | OPTION_KEY),
        ("TopRightQuarter"@, K_VK_I, CONTROL_KEY | OPTION_KEY),
        ("BottomLeftQuarter"@, K_VK_J, CONTROL_KEY | OPTION_KEY),
        ("BottomRightQuarter"@, K_VK_K, CONTROL_KEY | OPTION_KEY),
        ("Maximize"@, K_VK_RETURN, CONTROL_KEY | OPTION_KEY),
        ("Center"@, K_VK_C, CONTROL_KEY | OPTION_KEY),
        ("Restore"@, K_VK_DELETE, CONTROL_KEY | OPTION_KEY),
        ("EqualizeAll"@, K_VK_EQUAL, CONTROL_KEY | OPTION_KEY),
        ("ToggleZoom"@, K_VK_Z, CONTROL_KEY | OPTION_KEY),
        ("MovePaneLeft"@, K_VK_LEFT_ARROW, CONTROL_KEY | OPTION_KEY | SHIFT_KEY),
        ("MovePaneRight"@, K_VK_RIGHT_ARROW, CONTROL_KEY | OPTION_KEY | SHIFT_KEY),
        ("MovePaneUp"@, K_VK_UP_ARROW, CONTROL_KEY | OPTION_KEY | SHIFT_KEY),
        ("MovePaneDown"@, K_VK_DOWN_ARROW, CONTROL_KEY | OPTION_KEY | SHIFT_KEY),
        ("SwapPaneLeft"@, K_VK_LEFT_ARROW, CONTROL_KEY | OPTION_KEY | CMD_KEY),
        ("SwapPaneRight"@, K_VK_RIGHT_ARROW, CONTROL_KEY | OPTION_KEY | CMD_KEY),
        ("SwapPaneUp"@, K_VK_UP_ARROW, CONTROL_KEY | OPTION_KEY | CMD_KEY),
        ("SwapPaneDown"@, K_VK_DOWN_ARROW, CONTROL_KEY | OPTION_KEY | CMD_KEY),
    ]
}

/// All default bindings as (action_name, keycode, modifiers).
pub fn default_binding_list() -> (r: Vec<(&'static str, u32, u32)>)
    ensures
        r@.map_values(|e: (&'static str, u32, u32)| (e.0@, e.1, e.2)) == default_binding_table(),
{
    let r = vec![
        ("LeftHalf", K_VK_LEFT_ARROW, CONTROL_KEY | OPTION_KEY),
        ("RightHalf", K_VK_RIGHT_ARROW, CONTROL_KEY | OPTION_KEY),
        ("TopHalf", K_VK_UP_ARROW, CONTROL_KEY | OPTION_KEY),
        ("BottomHalf", K_VK_DOWN_ARROW, CONTROL_KEY | OPTION_KEY),
        ("LeftThird", K_VK_D, CONTROL_KEY | OPTION_KEY),
        ("CenterThird", K_VK_F, CONTROL_KEY | OPTION_KEY),
        ("RightThird", K_VK_G, CONTROL_KEY | OPTION_KEY),
        ("LeftTwoThirds", K_VK_E, CONTROL_KEY | OPTION_KEY),
        ("CenterTwoThirds", K_VK_R, CONTROL_KEY | OPTION_KEY),
        ("RightTwoThirds", K_VK_T, CONTROL_KEY | OPTION_KEY),
        ("TopLeftQuarter", K_VK_U, CONTROL_KEY | OPTION_KEY),
        ("TopRightQuarter", K_VK_I, CONTROL_KEY | OPTION_KEY),
        ("BottomLeftQuarter", K_VK_J, CONTROL_KEY | OPTION_KEY),
        ("BottomRightQuarter", K_VK_K, CONTROL_KEY | OPTION_KEY),
        ("Maximize", K_VK_RETURN, CONTROL_KEY | OPTION_KEY),
        ("Center", K_VK_C, CONTROL_KEY | OPTION_KEY),
        ("Restore", K_VK_DELETE, CONTROL_KEY | OPTION_KEY),
        ("EqualizeAll", K_VK_EQUAL, CONTROL_KEY | OPTION_KEY),
        ("ToggleZoom", K_VK_Z, CONTROL_KEY | OPTION_KEY),
        ("MovePaneLeft", K_VK_LEFT_ARROW, CONTROL_KEY | OPTION_KEY | SHIFT_KEY),
        ("MovePaneRight", K_VK_RIGHT_ARROW, CONTROL_KEY | OPTION_KEY | SHIFT_KEY),
        ("MovePaneUp", K_VK_UP_ARROW, CONTROL_KEY | OPTION_KEY | SHIFT_KEY),
        ("MovePaneDown", K_VK_DOWN_ARROW, CONTROL_KEY | OPTION_KEY | SHIFT_KEY),
        ("SwapPaneLeft", K_VK_LEFT_ARROW, CONTROL_KEY | OPTION_KEY | CMD_KEY),
        ("SwapPaneRight", K_VK_RIGHT_ARROW, CONTROL_KEY | OPTION_KEY | CMD_KEY),
        ("SwapPaneUp", K_VK_UP_ARROW, CONTROL_KEY | OPTION_KEY | CMD_KEY),
        ("SwapPaneDown", K_VK_DOWN_ARROW, CONTROL_KEY | OPTION_KEY | CMD_KEY),
    ];
    assert(r@.map_values(|e: (&'static str, u32, u32)| (e.0@, e.1, e.2)) =~= default_binding_table());
    r
}

/// The label shown for a key code.
pub open spec fn key_label(keycode: u32) -> Seq<char> {
    match keycode {
        K_VK_A => "A"@,
        K_VK_B => "B"@,
        K_VK_C => "C"@,
        K_VK_D => "D"@,
        K_VK_E => "E"@,
        K_VK_F => "F"@,
        K_VK_G => "G"@,
        K_VK_H => "H"@,
        K_VK_I => "I"@,
        K_VK_J => "J"@,
        K_VK_K => "K"@,
        K_VK_L => "L"@,
        K_VK_M => "M"@,
        K_VK_N => "N"@,
        K_VK_O => "O"@,
        K_VK_P => "P"@,
        K_VK_Q => "Q"@,
        K_VK_R => "R"@,
        K_VK_S => "S"@,
        K_VK_T => "T"@,
        K_VK_U => "U"@,
        K_VK_V => "V"@,
        K_VK_W => "W"@,
        K_VK_X => "X"@,
        K_VK_Y => "Y"@,
        K_VK_Z => "Z"@,
        K_VK_0 => "0"@,
        K_VK_1 => "1"@,
        K_VK_2 => "2"@,
        K_VK_3 => "3"@,
        K_VK_4 => "4"@,
        K_VK_5 => "5"@,
        K_VK_6 => "6"@,
        K_VK_7 => "7"@,
        K_VK_8 => "8"@,
        K_VK_9 => "9"@,
        K_VK_RETURN => "Return"@,
        K_VK_TAB => "Tab"@,
        K_VK_SPACE => "Space"@,
        K_VK_DELETE => "Backspace"@,
        K_VK_ESCAPE => "Escape"@,
        K_VK_LEFT_ARROW => "\u{2190}"@,
        K_VK_RIGHT_ARROW => "\u{2192}"@,
        K_VK_UP_ARROW => "\u{2191}"@,
        K_VK_DOWN_ARROW => "\u{2193}"@,
        K_VK_EQUAL => "="@,
        K_VK_MINUS => "-"@,
        _ => "?"@,
    }
}

/// Keycode to display name.
pub fn keycode_name(keycode: u32) -> (r: &'static str)
    ensures
        r@ == key_label(keycode),
{
    match keycode {
        K_VK_A => "A",
        K_VK_B => "B",
        K_VK_C => "C",
        K_VK_D => "D",
        K_VK_E => "E",
        K_VK_F => "F",
        K_VK_G => "G",
        K_VK_H => "H",
        K_VK_I => "I",
        K_VK_J => "J",
        K_VK_K => "K",
        K_VK_L => "L",
        K_VK_M => "M",
        K_VK_N => "N",
        K_VK_O => "O",
        K_VK_P => "P",
        K_VK_Q => "Q",
        K_VK_R => "R",
        K_VK_S => "S",
        K_VK_T => "T",
        K_VK_U => "U",
        K_VK_V => "V",
        K_VK_W => "W",
        K_VK_X => "X",
        K_VK_Y => "Y",
        K_VK_Z => "Z",
        K_VK_0 => "0",
        K_VK_1 => "1",
        K_VK_2 => "2",
        K_VK_3 => "3",
        K_VK_4 => "4",
        K_VK_5 => "5",
        K_VK_6 => "6",
        K_VK_7 => "7",
        K_VK_8 => "8",
        K_VK_9 => "9",
        K_VK_RETURN => "Return",
        K_VK_TAB => "Tab",
        K_VK_SPACE => "Space",
        K_VK_DELETE => "Backspace",
        K_VK_ESCAPE => "Escape",
        K_VK_LEFT_ARROW => "\u{2190}",
        K_VK_RIGHT_ARROW => "\u{2192}",
        K_VK_UP_ARROW => "\u{2191}",
        K_VK_DOWN_ARROW => "\u{2193}",
        K_VK_EQUAL => "=",
        K_VK_MINUS => "-",
        _ => "?",
    }
}

/// The labels of the modifiers set in `m`, in the order Ctrl, Opt, Shift, Cmd.
pub open spec fn modifier_labels(m: u32) -> Seq<Seq<char>> {
    (if m & CONTROL_KEY != 0 { seq!["Ctrl"@] } else { seq![] })
    + (if m & OPTION_KEY != 0 { seq!["Opt"@] } else { seq![] })
    + (if m & SHIFT_KEY != 0 { seq!["Shift"@] } else { seq![] })
    + (if m & CMD_KEY != 0 { seq!["Cmd"@] } else { seq![] })
}

/// `parts` joined with `sep` between consecutive parts.
pub open spec fn joined(parts: Seq<Seq<char>>, sep: Seq<char>) -> Seq<char>
    decreases parts.len(),
{
    if parts.len() == 0 {
        Seq::empty()
    } else if parts.len() == 1 {
        parts[0]
    } else {
        joined(parts.drop_last(), sep) + sep + parts.last()
    }
}

/// The text shown for a binding: its modifier labels and its key label,
/// joined with `+`.
pub open spec fn binding_label(b: KeyBinding) -> Seq<char> {
    joined(modifier_labels(b.modifiers).push(key_label(b.keycode)), "+"@)
}

/// Join `parts` with `sep`.
fn join(parts: &Vec<&str>, sep: &str) -> (r: String)
    ensures
        r@ == joined(parts@.map_values(|p: &str| p@), sep@),
{
    let ghost views = parts@.map_values(|p: &str| p@);
    let mut result = String::new();
    if parts.len() == 0 {
        assert(views =~= Seq::<Seq<char>>::empty());
        return result;
    }
    result.append(parts[0]);
    assert(views.subrange(0, 1) =~= seq![views[0]]);
    let mut i: usize = 1;
    while i < parts.len()
        invariant
            views == parts@.map_values(|p: &str| p@),
            1 <= i <= parts.len(),
            result@ == joined(views.subrange(0, i as int), sep@),
        decreases parts.len() - i,
    {
        result.append(sep);
        result.append(parts[i]);
        assert(views.subrange(0, i + 1).drop_last() =~= views.subrange(0, i as int));
        assert(views.subrange(0, i + 1).last() == parts@[i as int]@);
        i = i + 1;
    }
    assert(views.subrange(0, parts.len() as int) =~= views);
    result
}

/// Human-readable display for a keybinding.
pub fn format_binding(binding: &KeyBinding) -> (r: String)
    ensures
        r@ == binding_label(*binding),
{
    let mut parts: Vec<&str> = Vec::new();
    if binding.modifiers & CONTROL_KEY != 0 {
        parts.push("Ctrl");
    }
    if binding.modifiers & OPTION_KEY != 0 {
        parts.push("Opt");
    }
    if binding.modifiers & SHIFT_KEY != 0 {
        parts.push("Shift");
    }
    if binding.modifiers & CMD_KEY != 0 {
        parts.push("Cmd");
    }
    parts.push(keycode_name(binding.keycode));
    assert(parts@.map_values(|p: &str| p@) =~= modifier_labels(binding.modifiers).push(
        key_label(binding.keycode),
    ));
    join(&parts, "+")
}

/// Human-readable display name for an action: a space goes before every
/// capital but the first ("LeftHalf" becomes "Left Half").
pub fn action_display_name(name: &str) -> (r: String)
    ensures
        r@ == spaced_before_capitals(name@),
{
    let n = name.unicode_len();
    let mut result = String::new();
    let space = " ";
    proof {
        reveal_strlit(" ");
    }
    let mut i: usize = 0;
    while i < n
        invariant
            n == name@.len(),
            i <= n,
            space@ == seq![' '],
            result@ == spaced_before_capitals(name@.subrange(0, i as int)),
        decreases n - i,
    {
        let ch = name.get_char(i);
        let ghost prefix = name@.subrange(0, i + 1);
        assert(prefix.drop_last() =~= name@.subrange(0, i as int));
        assert(prefix.last() == ch);
        if i > 0 && char_is_uppercase(ch) {
            result.append(space);
        }
        let one = name.substring_char(i, i + 1);
        assert(one@ =~= seq![ch]);
        result.append(one);
        proof {
            if i > 0 && is_uppercase(ch) {
                assert(result@ =~= spaced_before_capitals(name@.subrange(0, i as int)) + seq![' ', ch]);
            } else {
                assert(result@ =~= spaced_before_capitals(name@.subrange(0, i as int)).push(ch));
            }
        }
        i = i + 1;
    }
    assert(name@.subrange(0, n as int) =~= name@);
    result
}

/// The settings section an action name belongs to.
pub open spec fn group_of(name: Seq<char>) -> Seq<char> {
    if contains_seq(name, "Half"@) {
        "Halves"@
    } else if contains_seq(name, "TwoThirds"@) {
        "Two-Thirds"@
    } else if contains_seq(name, "Third"@) {
        "Thirds"@
    } else if contains_seq(name, "Quarter"@) {
        "Quarters"@
    } else if starts_with_seq(name, "Move"@) {
        "Move Focus"@
    } else if starts_with_seq(name, "Swap"@) {
        "Swap Panes"@
    } else {
        "Special"@
    }
}

/// Group name for an action (for display sections).
pub fn action_group(name: &str) -> (r: &'static str)
    ensures
        r@ == group_of(name@),
{
    if contains_str(name, "Half") {
        "Halves"
    } else if contains_str(name, "TwoThirds") {
        "Two-Thirds"
    } else if contains_str(name, "Third") {
        "Thirds"
    } else if contains_str(name, "Quarter") {
        "Quarters"
    } else if starts_with_str(name, "Move") {
        "Move Focus"
    } else if starts_with_str(name, "Swap") {
        "Swap Panes"
    } else {
        "Special"
    }
}

/// Name `a` comes before name `b` in the order of strings: character by
/// character, a proper prefix first.
pub open spec fn name_precedes(a: Seq<char>, b: Seq<char>) -> bool
    decreases a.len(),
{
    if a.len() == 0 {
        b.len() > 0
    } else if b.len() == 0 {
        false
    } else if a[0] != b[0] {
        (a[0] as int) < (b[0] as int)
    } else {
        name_precedes(a.drop_first(), b.drop_first())
    }
}

/// No name comes before itself.
pub proof fn lemma_name_precedes_irreflexive(a: Seq<char>)
    ensures
        !name_precedes(a, a),
    decreases a.len(),
{
    if a.len() > 0 {
        lemma_name_precedes_irreflexive(a.drop_first());
    }
}

/// The stored bindings are as the settings file's map keeps them: in the
/// order of their names, so that no name occurs twice.
pub open spec fn stored_in_name_order(s: Seq<(String, KeyBinding)>) -> bool {
    forall|i: int, j: int| 0 <= i < j < s.len() ==> name_precedes(#[trigger] s[i].0@, #[trigger] s[j].0@)
}

/// The (key code, modifiers, action) triples of the stored bindings whose
/// names are action names, in order; bindings under other names are skipped.
pub open spec fn bound_actions(s: Seq<(String, KeyBinding)>) -> Seq<(u32, u32, TileAction)>
    decreases s.len(),
{
    if s.len() == 0 {
        Seq::empty()
    } else {
        let before = bound_actions(s.drop_last());
        let (name, b) = s.last();
        match action_named(name@) {
            Some(a) => before.push((b.keycode, b.modifiers, a)),
            None => before,
        }
    }
}

/// Convert stored (name, binding) pairs to the (keycode, modifiers, action)
/// triples that hotkey registration expects.  The result is stated for any
/// sequence of pairs; stored as the settings file keeps them
/// (`stored_in_name_order`), no action occurs twice in it
/// (`law_stored_bindings_name_distinct_actions`).
pub fn bindings_to_actions(bindings: &Vec<(String, KeyBinding)>) -> (r: Vec<(u32, u32, TileAction)>)
    ensures
        r@ == bound_actions(bindings@),
{
    let mut result: Vec<(u32, u32, TileAction)> = Vec::new();
    let mut i: usize = 0;
    while i < bindings.len()
        invariant
            i <= bindings.len(),
            result@ == bound_actions(bindings@.subrange(0, i as int)),
        decreases bindings.len() - i,
    {
        let ghost prefix = bindings@.subrange(0, i + 1);
        assert(prefix.drop_last() =~= bindings@.subrange(0, i as int));
        let (name, b) = &bindings[i];
        if let Some(action) = action_from_name(name.as_str()) {
            result.push((b.keycode, b.modifiers, action));
        }
        i = i + 1;
    }
    assert(bindings@.subrange(0, bindings.len() as int) =~= bindings@);
    result
}

/// A row of the keybindings list in the settings.
#[derive(Debug, Clone)]
pub struct BindingRow {
    pub action_name: String,
    pub display_name: String,
    pub group: &'static str,
    pub shortcut_text: String,
}

impl View for BindingRow {
    type V = (Seq<char>, Seq<char>, Seq<char>, Seq<char>);

    open spec fn view(&self) -> (Seq<char>, Seq<char>, Seq<char>, Seq<char>) {
        (self.action_name@, self.display_name@, self.group@, self.shortcut_text@)
    }
}

/// The order of the sections of the keybindings list.
pub open spec fn group_order() -> Seq<Seq<char>> {
    seq!["Halves"@, "Thirds"@, "Two-Thirds"@, "Quarters"@, "Special"@, "Move Focus"@, "Swap Panes"@]
}

/// The row shown for the binding of action `name`: its name, display name,
/// section and shortcut text.
pub open spec fn row_of(name: Seq<char>, b: KeyBinding) -> (Seq<char>, Seq<char>, Seq<char>, Seq<char>) {
    (name, spaced_before_capitals(name), group_of(name), binding_label(b))
}

/// The rows of the bindings in section `g`, in the order of the bindings.
pub open spec fn rows_in_group(bindings: Seq<(String, KeyBinding)>, g: Seq<char>) -> Seq<
    (Seq<char>, Seq<char>, Seq<char>, Seq<char>),
>
    decreases bindings.len(),
{
    if bindings.len() == 0 {
        Seq::empty()
    } else {
        let before = rows_in_group(bindings.drop_last(), g);
        let (name, b) = bindings.last();
        if group_of(name@) == g {
            before.push(row_of(name@, b))
        } else {
            before
        }
    }
}

/// The rows of the bindings, section by section in the order `groups`.
pub open spec fn rows_by_group(bindings: Seq<(String, KeyBinding)>, groups: Seq<Seq<char>>) -> Seq<
    (Seq<char>, Seq<char>, Seq<char>, Seq<char>),
>
    decreases groups.len(),
{
    if groups.len() == 0 {
        Seq::empty()
    } else {
        rows_by_group(bindings, groups.drop_last()) + rows_in_group(bindings, groups.last())
    }
}

/// The rows of the keybindings list: the bindings section by section, each
/// section in the order of the bindings.  Stored as the settings file keeps
/// them (`stored_in_name_order`), each section lists its rows in name order
/// (`law_settings_sections_in_name_order`).
pub fn build_rows(bindings: &Vec<(String, KeyBinding)>) -> (r: Vec<BindingRow>)
    ensures
        r@.map_values(|row: BindingRow| row@) == rows_by_group(bindings@, group_order()),
{
    let sections: Vec<&'static str> = vec![
        "Halves",
        "Thirds",
        "Two-Thirds",
        "Quarters",
        "Special",
        "Move Focus",
        "Swap Panes",
    ];
    let ghost groups = sections@.map_values(|g: &'static str| g@);
    assert(groups =~= group_order());
    let mut rows: Vec<BindingRow> = Vec::new();
    let mut gi: usize = 0;
    while gi < sections.len()
        invariant
            gi <= sections.len(),
            groups == sections@.map_values(|g: &'static str| g@),
            rows@.map_values(|row: BindingRow| row@) == rows_by_group(
                bindings@,
                groups.subrange(0, gi as int),
            ),
        decreases sections.len() - gi,
    {
        let group = sections[gi];
        let ghost start = rows@.map_values(|row: BindingRow| row@);
        let mut i: usize = 0;
        while i < bindings.len()
            invariant
                i <= bindings.len(),
                gi < sections.len(),
                group == sections@[gi as int],
                rows@.map_values(|row: BindingRow| row@) == start + rows_in_group(
                    bindings@.subrange(0, i as int),
                    group@,
                ),
            decreases bindings.len() - i,
        {
            let ghost prefix = bindings@.subrange(0, i + 1);
            assert(prefix.drop_last() =~= bindings@.subrange(0, i as int));
            let (name, binding) = &bindings[i];
            if str_eq(action_group(name.as_str()), group) {
                let row = BindingRow {
                    action_name: name.clone(),
                    display_name: action_display_name(name.as_str()),
                    group,
                    shortcut_text: format_binding(binding),
                };
                let ghost before = rows@.map_values(|row: BindingRow| row@);
                rows.push(row);
                assert(rows@.map_values(|row: BindingRow| row@) =~= before.push(row@));
            }
            i = i + 1;
        }
        assert(bindings@.subrange(0, bindings.len() as int) =~= bindings@);
        assert(groups.subrange(0, gi + 1).drop_last() =~= groups.subrange(0, gi as int));
        gi = gi + 1;
    }
    assert(groups.subrange(0, sections.len() as int) =~= groups);
    rows
}

} // verus!
