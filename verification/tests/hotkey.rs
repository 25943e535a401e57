use floatview::actions::Action;
use floatview::config::HotkeyConfig;
use floatview::hotkey::{
    hotkey_bindings, key_from_name, modifier_from_name, parse_hotkey, Binding, Key, Modifier,
    ModifierSet,
};

fn set(alt: bool, shift: bool, control: bool, super_key: bool) -> ModifierSet {
    ModifierSet { alt, shift, control, super_key }
}

#[test]
fn parse_hotkey_reads_the_defaults() {
    assert_eq!(parse_hotkey("Alt+Shift+T"), Some((set(true, true, false, false), Key::KeyT)));
    assert_eq!(parse_hotkey("Alt+Shift+D"), Some((set(true, true, false, false), Key::KeyD)));
    assert_eq!(parse_hotkey("Alt+Shift+Up"), Some((set(true, true, false, false), Key::ArrowUp)));
    assert_eq!(parse_hotkey("Alt+Shift+Down"), Some((set(true, true, false, false), Key::ArrowDown)));
    assert_eq!(parse_hotkey("Alt+Shift+H"), Some((set(true, true, false, false), Key::KeyH)));
}

#[test]
fn parse_hotkey_ignores_case_and_white_space() {
    assert_eq!(parse_hotkey("ALT+SHIFT+T"), Some((set(true, true, false, false), Key::KeyT)));
    assert_eq!(parse_hotkey(" ctrl + META +\tdown "), Some((set(false, false, true, true), Key::ArrowDown)));
    assert_eq!(parse_hotkey("Control+Win+h"), Some((set(false, false, true, true), Key::KeyH)));
    assert_eq!(parse_hotkey("super+UP"), Some((set(false, false, false, true), Key::ArrowUp)));
}

#[test]
fn parse_hotkey_passes_over_unknown_modifiers() {
    assert_eq!(parse_hotkey("Hyper+Alt+T"), Some((set(true, false, false, false), Key::KeyT)));
    assert_eq!(parse_hotkey("+T"), Some((ModifierSet::empty(), Key::KeyT)));
    assert_eq!(parse_hotkey("++d"), Some((ModifierSet::empty(), Key::KeyD)));
    assert_eq!(parse_hotkey("t+d"), Some((ModifierSet::empty(), Key::KeyD)));
    assert_eq!(parse_hotkey("T"), Some((ModifierSet::empty(), Key::KeyT)));
    assert_eq!(parse_hotkey("alt+alt+T"), Some((set(true, false, false, false), Key::KeyT)));
}

#[test]
fn parse_hotkey_needs_a_known_key_at_the_end() {
    assert_eq!(parse_hotkey(""), None);
    assert_eq!(parse_hotkey("   "), None);
    assert_eq!(parse_hotkey("Alt+"), None);
    assert_eq!(parse_hotkey("Alt+Shift"), None);
    assert_eq!(parse_hotkey("Alt+X"), None);
    assert_eq!(parse_hotkey("T+Alt"), None);
    assert_eq!(parse_hotkey("Alt+Shift+Left"), None);
    assert_eq!(parse_hotkey("Alt + Shift + T T"), None);
}

#[test]
fn names_are_matched_in_any_case() {
    assert_eq!(modifier_from_name("alt"), Some(Modifier::Alt));
    assert_eq!(modifier_from_name("Alt"), Some(Modifier::Alt));
    assert_eq!(modifier_from_name("SHIFT"), Some(Modifier::Shift));
    assert_eq!(modifier_from_name("control"), Some(Modifier::Control));
    assert_eq!(modifier_from_name("cTRL"), Some(Modifier::Control));
    assert_eq!(modifier_from_name("super"), Some(Modifier::Super));
    assert_eq!(modifier_from_name("Win"), Some(Modifier::Super));
    assert_eq!(modifier_from_name("meta"), Some(Modifier::Super));
    assert_eq!(modifier_from_name(" alt"), None);
    assert_eq!(modifier_from_name("al"), None);
    assert_eq!(modifier_from_name("alts"), None);
    assert_eq!(modifier_from_name(""), None);
    assert_eq!(modifier_from_name("t"), None);
    assert_eq!(key_from_name("t"), Some(Key::KeyT));
    assert_eq!(key_from_name("T"), Some(Key::KeyT));
    assert_eq!(key_from_name("d"), Some(Key::KeyD));
    assert_eq!(key_from_name("Up"), Some(Key::ArrowUp));
    assert_eq!(key_from_name("DOWN"), Some(Key::ArrowDown));
    assert_eq!(key_from_name("h"), Some(Key::KeyH));
    assert_eq!(key_from_name("alt"), None);
    assert_eq!(key_from_name("u p"), None);
    assert_eq!(key_from_name(""), None);
}

#[test]
fn names_outside_ascii_name_nothing() {
    assert_eq!(key_from_name("\u{212a}"), None);
    assert_eq!(modifier_from_name("sh\u{130}ft"), None);
    assert_eq!(modifier_from_name("w\u{130}n"), None);
    assert_eq!(modifier_from_name("\u{1e9e}hift"), None);
    assert_eq!(parse_hotkey("\u{ff21}lt+T"), Some((ModifierSet::empty(), Key::KeyT)));
    assert_eq!(parse_hotkey("Alt+\u{ff34}"), None);
}

#[test]
fn names_read_as_the_full_lower_case_mapping_reads_them() {
    let names = [
        "alt", "shift", "control", "ctrl", "super", "win", "meta", "t", "d", "up", "down", "h",
    ];
    let in_a_name = |c: char| names.iter().any(|name| name.contains(c));
    for code in 0u32..=0x10ffff {
        let Some(c) = char::from_u32(code) else {
            continue;
        };
        let full: String = c.to_lowercase().collect();
        if c.is_ascii() {
            assert_eq!(full, c.to_ascii_lowercase().to_string(), "code point {code:#x}");
        } else {
            assert!(!full.chars().all(in_a_name), "code point {code:#x} lowers to {full:?}");
        }
    }
    for name in names {
        for text in [name.to_string(), name.to_uppercase(), format!("{name}\u{3a3}")] {
            let as_modifier = modifier_from_name(&text).is_some();
            let as_key = key_from_name(&text).is_some();
            let lower = text.to_lowercase();
            assert_eq!(as_modifier || as_key, names.contains(&lower.as_str()), "{text:?}");
        }
    }
}

#[test]
fn modifier_sets_grow_by_insertion() {
    let none = ModifierSet::empty();
    assert_eq!(none, set(false, false, false, false));
    assert_eq!(none.insert(None), none);
    assert_eq!(none.insert(Some(Modifier::Alt)), set(true, false, false, false));
    assert_eq!(none.insert(Some(Modifier::Shift)), set(false, true, false, false));
    assert_eq!(none.insert(Some(Modifier::Control)), set(false, false, true, false));
    assert_eq!(none.insert(Some(Modifier::Super)), set(false, false, false, true));
    let all = set(true, true, true, true);
    assert_eq!(all.insert(Some(Modifier::Alt)), all);
}

#[test]
fn default_hotkeys_bind_all_five_actions() {
    let both = set(true, true, false, false);
    assert_eq!(
        hotkey_bindings(&HotkeyConfig::default()),
        vec![
            Binding { modifiers: both, key: Key::KeyT, action: Action::ToggleAlwaysOnTop },
            Binding { modifiers: both, key: Key::KeyD, action: Action::ToggleLock },
            Binding { modifiers: both, key: Key::ArrowUp, action: Action::OpacityUp },
            Binding { modifiers: both, key: Key::ArrowDown, action: Action::OpacityDown },
            Binding { modifiers: both, key: Key::KeyH, action: Action::ToggleVisibility },
        ]
    );
}

#[test]
fn unreadable_hotkeys_bind_nothing() {
    let mut keys = HotkeyConfig::default();
    keys.toggle_locked = "Alt+Shift+L".to_string();
    keys.opacity_down = "".to_string();
    keys.toggle_visibility = "ctrl+h".to_string();
    assert_eq!(
        hotkey_bindings(&keys),
        vec![
            Binding {
                modifiers: set(true, true, false, false),
                key: Key::KeyT,
                action: Action::ToggleAlwaysOnTop
            },
            Binding {
                modifiers: set(true, true, false, false),
                key: Key::ArrowUp,
                action: Action::OpacityUp
            },
            Binding {
                modifiers: set(false, false, true, false),
                key: Key::KeyH,
                action: Action::ToggleVisibility
            },
        ]
    );
}
