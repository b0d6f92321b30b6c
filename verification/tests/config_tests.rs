use tile::config::{
    build_rows, action_display_name, action_from_name, action_group, action_name, bindings_to_actions,
    default_binding_list, format_binding, keycode_name, KeyBinding,
};
use tile::hotkeys::default_bindings;
use tile::keycodes::{CMD_KEY, CONTROL_KEY, OPTION_KEY, SHIFT_KEY};
use tile::types::TileAction;

#[test]
fn test_format_binding() {
    let b = KeyBinding {
        keycode: 0x7B, // left arrow
        modifiers: CONTROL_KEY | OPTION_KEY,
    };
    let s = format_binding(&b);
    assert!(s.contains("Ctrl"));
    assert!(s.contains("Opt"));
    assert!(s.contains("\u{2190}"));
}

#[test]
fn test_action_display_name() {
    assert_eq!(action_display_name("LeftHalf"), "Left Half");
    assert_eq!(action_display_name("TopLeftQuarter"), "Top Left Quarter");
    assert_eq!(action_display_name("EqualizeAll"), "Equalize All");
}

#[test]
fn test_action_group() {
    assert_eq!(action_group("LeftHalf"), "Halves");
    assert_eq!(action_group("LeftThird"), "Thirds");
    assert_eq!(action_group("LeftTwoThirds"), "Two-Thirds");
    assert_eq!(action_group("TopLeftQuarter"), "Quarters");
    assert_eq!(action_group("MovePaneLeft"), "Move Focus");
    assert_eq!(action_group("SwapPaneRight"), "Swap Panes");
    assert_eq!(action_group("Maximize"), "Special");
}

#[test]
fn test_action_name_roundtrip() {
    let actions = [
        TileAction::LeftHalf, TileAction::RightHalf,
        TileAction::TopLeftQuarter, TileAction::Maximize,
        TileAction::MovePaneLeft, TileAction::SwapPaneRight,
    ];
    for action in actions {
        let name = action_name(action);
        let back = action_from_name(name).unwrap();
        assert_eq!(back, action);
    }
}

#[test]
fn format_binding_exact_text() {
    let b = KeyBinding { keycode: 0x7B, modifiers: CONTROL_KEY | OPTION_KEY };
    assert_eq!(format_binding(&b), "Ctrl+Opt+\u{2190}");
    let all = KeyBinding { keycode: 0x06, modifiers: CONTROL_KEY | OPTION_KEY | SHIFT_KEY | CMD_KEY };
    assert_eq!(format_binding(&all), "Ctrl+Opt+Shift+Cmd+Z");
    let none = KeyBinding { keycode: 0x24, modifiers: 0 };
    assert_eq!(format_binding(&none), "Return");
    let unknown = KeyBinding { keycode: 0x99, modifiers: CMD_KEY };
    assert_eq!(format_binding(&unknown), "Cmd+?");
}

#[test]
fn keycode_names() {
    assert_eq!(keycode_name(0x00), "A");
    assert_eq!(keycode_name(0x1D), "0");
    assert_eq!(keycode_name(0x33), "Backspace");
    assert_eq!(keycode_name(0x18), "=");
    assert_eq!(keycode_name(0x7E), "\u{2191}");
    assert_eq!(keycode_name(0x1E), "?");
}

#[test]
fn action_display_name_edge_cases() {
    assert_eq!(action_display_name(""), "");
    assert_eq!(action_display_name("Maximize"), "Maximize");
    assert_eq!(action_display_name("lowerStart"), "lower Start");
    assert_eq!(action_display_name("ABC"), "A B C");
}

#[test]
fn action_from_unknown_name_is_none() {
    assert_eq!(action_from_name("Nothing"), None);
    assert_eq!(action_from_name(""), None);
    assert_eq!(action_from_name("lefthalf"), None);
    assert_eq!(action_from_name("StackNext"), Some(TileAction::StackNext));
}

#[test]
fn every_action_name_roundtrips() {
    let all = [
        TileAction::LeftHalf, TileAction::RightHalf, TileAction::TopHalf, TileAction::BottomHalf,
        TileAction::LeftThird, TileAction::CenterThird, TileAction::RightThird,
        TileAction::LeftTwoThirds, TileAction::CenterTwoThirds, TileAction::RightTwoThirds,
        TileAction::TopLeftQuarter, TileAction::TopRightQuarter, TileAction::BottomLeftQuarter,
        TileAction::BottomRightQuarter, TileAction::Maximize, TileAction::Center,
        TileAction::Restore, TileAction::EqualizeAll, TileAction::ToggleZoom,
        TileAction::MovePaneLeft, TileAction::MovePaneRight, TileAction::MovePaneUp,
        TileAction::MovePaneDown, TileAction::SwapPaneLeft, TileAction::SwapPaneRight,
        TileAction::SwapPaneUp, TileAction::SwapPaneDown, TileAction::StackNext,
        TileAction::StackPrev, TileAction::SnapToNearest,
    ];
    for a in all {
        assert_eq!(action_from_name(action_name(a)), Some(a));
    }
}

#[test]
fn default_binding_list_has_all_bindings() {
    let list = default_binding_list();
    assert_eq!(list.len(), 27);
    assert_eq!(list[0], ("LeftHalf", 0x7B, CONTROL_KEY | OPTION_KEY));
    assert_eq!(list[26], ("SwapPaneDown", 0x7D, CONTROL_KEY | OPTION_KEY | CMD_KEY));
}

#[test]
fn default_lists_agree_with_hotkey_defaults() {
    let names = default_binding_list();
    let hotkeys = default_bindings();
    assert_eq!(names.len(), hotkeys.len());
    for (n, h) in names.iter().zip(hotkeys.iter()) {
        assert_eq!(n.0, action_name(h.2));
        assert_eq!(n.1, h.0);
        assert_eq!(n.2, h.1);
    }
}

#[test]
fn bindings_to_actions_keeps_all_default_bindings() {
    let stored: Vec<(String, KeyBinding)> = default_binding_list()
        .into_iter()
        .map(|(n, k, m)| (n.to_string(), KeyBinding { keycode: k, modifiers: m }))
        .collect();
    let bindings = bindings_to_actions(&stored);
    assert_eq!(bindings.len(), 27);
    assert_eq!(bindings[0], (0x7B, CONTROL_KEY | OPTION_KEY, TileAction::LeftHalf));
}

#[test]
fn bindings_to_actions_skips_unknown_names() {
    let stored = vec![
        ("Bogus".to_string(), KeyBinding { keycode: 1, modifiers: 2 }),
        ("Center".to_string(), KeyBinding { keycode: 0x08, modifiers: CONTROL_KEY }),
        ("".to_string(), KeyBinding { keycode: 3, modifiers: 4 }),
    ];
    let bindings = bindings_to_actions(&stored);
    assert_eq!(bindings, vec![(0x08, CONTROL_KEY, TileAction::Center)]);
}

#[test]
fn settings_rows_follow_section_order() {
    let stored: Vec<(String, KeyBinding)> = default_binding_list()
        .into_iter()
        .rev()
        .map(|(n, k, m)| (n.to_string(), KeyBinding { keycode: k, modifiers: m }))
        .collect();
    let rows = build_rows(&stored);
    assert_eq!(rows.len(), 27);
    let groups: Vec<&str> = rows.iter().map(|r| r.group).collect();
    let mut expected = Vec::new();
    for (g, n) in [
        ("Halves", 4),
        ("Thirds", 3),
        ("Two-Thirds", 3),
        ("Quarters", 4),
        ("Special", 5),
        ("Move Focus", 4),
        ("Swap Panes", 4),
    ] {
        for _ in 0..n {
            expected.push(g);
        }
    }
    assert_eq!(groups, expected);
    // Within a section the rows keep the order of the stored bindings.
    assert_eq!(rows[0].action_name, "BottomHalf");
    assert_eq!(rows[0].display_name, "Bottom Half");
    assert_eq!(rows[0].shortcut_text, "Ctrl+Opt+\u{2193}");
    assert_eq!(rows[3].action_name, "LeftHalf");
    assert_eq!(rows[26].action_name, "SwapPaneLeft");
    assert_eq!(rows[26].shortcut_text, "Ctrl+Opt+Cmd+\u{2190}");
}

fn default_stored_bindings() -> Vec<(String, KeyBinding)> {
    default_binding_list()
        .into_iter()
        .map(|(n, k, m)| (n.to_string(), KeyBinding { keycode: k, modifiers: m }))
        .collect()
}

#[test]
fn test_default_config_has_all_bindings() {
    let bindings = default_stored_bindings();
    assert_eq!(bindings.len(), 27);
}

#[test]
fn test_to_bindings() {
    let stored = default_stored_bindings();
    let bindings = bindings_to_actions(&stored);
    assert_eq!(bindings.len(), 27);
}

#[test]
fn default_bindings_share_no_shortcut() {
    let list = default_binding_list();
    for i in 0..list.len() {
        for j in (i + 1)..list.len() {
            assert_ne!((list[i].1, list[i].2), (list[j].1, list[j].2), "{} and {}", list[i].0, list[j].0);
        }
    }
    let hotkeys = default_bindings();
    for i in 0..hotkeys.len() {
        for j in (i + 1)..hotkeys.len() {
            assert_ne!((hotkeys[i].0, hotkeys[i].1), (hotkeys[j].0, hotkeys[j].1));
        }
    }
}

fn stored_as_map() -> Vec<(String, KeyBinding)> {
    let map: std::collections::BTreeMap<String, KeyBinding> = default_binding_list()
        .into_iter()
        .map(|(n, k, m)| (n.to_string(), KeyBinding { keycode: k, modifiers: m }))
        .collect();
    map.into_iter().collect()
}

#[test]
fn stored_bindings_bind_each_action_once() {
    let bindings = bindings_to_actions(&stored_as_map());
    assert_eq!(bindings.len(), 27);
    for i in 0..bindings.len() {
        for j in (i + 1)..bindings.len() {
            assert_ne!(bindings[i].2, bindings[j].2);
        }
    }
    // Name order: "BottomHalf" comes first, "TopRightQuarter" last.
    assert_eq!(bindings[0].2, TileAction::BottomHalf);
    assert_eq!(bindings[26].2, TileAction::TopRightQuarter);
}

#[test]
fn settings_sections_list_names_in_order() {
    let rows = build_rows(&stored_as_map());
    assert_eq!(rows.len(), 27);
    for i in 1..rows.len() {
        if rows[i - 1].group == rows[i].group {
            assert!(rows[i - 1].action_name < rows[i].action_name);
        }
    }
    let halves: Vec<&str> = rows.iter().filter(|r| r.group == "Halves").map(|r| r.action_name.as_str()).collect();
    assert_eq!(halves, vec!["BottomHalf", "LeftHalf", "RightHalf", "TopHalf"]);
}
