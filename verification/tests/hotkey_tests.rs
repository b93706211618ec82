use audio_switcher::hotkey::{
    build_modifiers, key_name_to_code, key_name_to_vk, plan_hotkeys, HotkeyModifiers, HotkeyPlan,
    HotkeyRegistry, KeyCode, MOD_ALT, MOD_CONTROL, MOD_NOREPEAT, MOD_SHIFT, MOD_WIN, WM_HOTKEY,
};
use audio_switcher::settings::{Shortcut, Shortcuts};

fn shortcut(ctrl: bool, alt: bool, shift: bool, win_key: bool, key: &str) -> Shortcut {
    Shortcut { ctrl, alt, shift, win_key, key: key.to_string() }
}

/// The Win32 code of a key code, written out independently of the library.
fn vk_of(code: KeyCode) -> u32 {
    match code {
        KeyCode::Letter(c) => c as u32,
        KeyCode::Function(n) => 0x6F + n as u32,
        KeyCode::Space => 0x20,
        KeyCode::Enter => 0x0D,
        KeyCode::Tab => 0x09,
        KeyCode::Escape => 0x1B,
        KeyCode::Backspace => 0x08,
        KeyCode::Delete => 0x2E,
        KeyCode::Insert => 0x2D,
        KeyCode::Home => 0x24,
        KeyCode::End => 0x23,
        KeyCode::PageUp => 0x21,
        KeyCode::PageDown => 0x22,
        KeyCode::ArrowUp => 0x26,
        KeyCode::ArrowDown => 0x28,
        KeyCode::ArrowLeft => 0x25,
        KeyCode::ArrowRight => 0x27,
        KeyCode::Minus => 0xBD,
        KeyCode::Equal => 0xBB,
        KeyCode::BracketLeft => 0xDB,
        KeyCode::BracketRight => 0xDD,
        KeyCode::Backslash => 0xDC,
        KeyCode::Semicolon => 0xBA,
        KeyCode::Quote => 0xDE,
        KeyCode::Comma => 0xBC,
        KeyCode::Period => 0xBE,
        KeyCode::Slash => 0xBF,
        KeyCode::Backquote => 0xC0,
    }
}

#[test]
fn vk_letters_are_their_own_codes() {
    assert_eq!(key_name_to_vk("A"), Some(0x41));
    assert_eq!(key_name_to_vk("Z"), Some(0x5A));
    assert_eq!(key_name_to_vk("F"), Some(0x46));
    assert_eq!(key_name_to_vk("a"), None);
    assert_eq!(key_name_to_vk("É"), None);
    assert_eq!(key_name_to_vk(""), None);
}

#[test]
fn vk_function_keys() {
    assert_eq!(key_name_to_vk("F1"), Some(0x70));
    assert_eq!(key_name_to_vk("F12"), Some(0x7B));
    assert_eq!(key_name_to_vk("F24"), Some(0x87));
    assert_eq!(key_name_to_vk("F0"), None);
    assert_eq!(key_name_to_vk("F25"), None);
    assert_eq!(key_name_to_vk("F+5"), Some(0x74));
    assert_eq!(key_name_to_vk("F05"), Some(0x74));
    assert_eq!(key_name_to_vk("F-5"), None);
    assert_eq!(key_name_to_vk("F99999999999"), None);
}

#[test]
fn vk_named_keys_and_digits() {
    assert_eq!(key_name_to_vk("0"), Some(0x30));
    assert_eq!(key_name_to_vk("9"), Some(0x39));
    assert_eq!(key_name_to_vk("Space"), Some(0x20));
    assert_eq!(key_name_to_vk("Enter"), Some(0x0D));
    assert_eq!(key_name_to_vk("Plus"), Some(0xBB));
    assert_eq!(key_name_to_vk("Equals"), Some(0xBB));
    assert_eq!(key_name_to_vk("Colon"), Some(0xBA));
    assert_eq!(key_name_to_vk("Pipe"), Some(0xDC));
    assert_eq!(key_name_to_vk("Backtick"), Some(0xC0));
    assert_eq!(key_name_to_vk("space"), None);
    assert_eq!(key_name_to_vk("Spaces"), None);
}

#[test]
fn code_table() {
    assert_eq!(key_name_to_code("A"), Some(KeyCode::Letter('A')));
    assert_eq!(key_name_to_code("Q"), Some(KeyCode::Letter('Q')));
    assert_eq!(key_name_to_code("q"), None);
    // A one-character name is a letter or nothing: digits are not mapped.
    assert_eq!(key_name_to_code("5"), None);
    assert_eq!(key_name_to_code("F12"), Some(KeyCode::Function(12)));
    assert_eq!(key_name_to_code("F25"), None);
    assert_eq!(key_name_to_code("F256"), None);
    assert_eq!(key_name_to_code("Up"), Some(KeyCode::ArrowUp));
    assert_eq!(key_name_to_code("OpenBracket"), Some(KeyCode::BracketLeft));
    assert_eq!(key_name_to_code("Backtick"), Some(KeyCode::Backquote));
    assert_eq!(key_name_to_code("Colon"), None);
    assert_eq!(key_name_to_code("Pipe"), None);
}

#[test]
fn key_tables_agree_on_sample_names() {
    let names = [
        "A", "M", "Z", "a", "5", "F", "F1", "F9", "F10", "F24", "F25", "F+3", "F007", "F256",
        "Space", "Enter", "Tab", "Escape", "Backspace", "Delete", "Insert", "Home", "End",
        "PageUp", "PageDown", "Up", "Down", "Left", "Right", "Minus", "Plus", "Equals",
        "OpenBracket", "CloseBracket", "Backslash", "Semicolon", "Quote", "Comma", "Period",
        "Slash", "Backtick", "Colon", "Pipe", "", "Foo",
    ];
    for name in names {
        if let Some(code) = key_name_to_code(name) {
            assert_eq!(key_name_to_vk(name), Some(vk_of(code)), "{name}");
        }
    }
}

#[test]
fn modifier_flags() {
    assert_eq!(build_modifiers(&shortcut(false, false, false, false, "K")), MOD_NOREPEAT);
    assert_eq!(build_modifiers(&shortcut(true, true, false, false, "K")), 0x4003);
    assert_eq!(
        build_modifiers(&shortcut(true, true, true, true, "K")),
        MOD_NOREPEAT | MOD_CONTROL | MOD_ALT | MOD_SHIFT | MOD_WIN
    );
    assert_eq!(build_modifiers(&shortcut(false, false, true, false, "K")), 0x4004);
}

#[test]
fn plan_follows_the_shortcuts() {
    let mut s = Shortcuts::new();
    s.insert("speakers".to_string(), shortcut(true, false, false, false, "K"));
    s.insert("headset".to_string(), shortcut(false, false, false, false, "Nope"));
    s.insert("hdmi".to_string(), shortcut(false, false, false, false, "F3"));
    let plan = plan_hotkeys(&s);
    assert_eq!(plan.len(), 3);
    match &plan[0] {
        HotkeyPlan::Register { device_id, key, modifiers } => {
            assert_eq!(device_id, "speakers");
            assert_eq!(*key, KeyCode::Letter('K'));
            assert_eq!(
                *modifiers,
                Some(HotkeyModifiers { control: true, alt: false, shift: false, super_key: false })
            );
        }
        other => panic!("unexpected {other:?}"),
    }
    match &plan[1] {
        HotkeyPlan::UnknownKey { key_name } => assert_eq!(key_name, "Nope"),
        other => panic!("unexpected {other:?}"),
    }
    match &plan[2] {
        HotkeyPlan::Register { device_id, key, modifiers } => {
            assert_eq!(device_id, "hdmi");
            assert_eq!(*key, KeyCode::Function(3));
            assert_eq!(*modifiers, None);
        }
        other => panic!("unexpected {other:?}"),
    }
}

#[test]
fn registry_maps_presses_to_devices() {
    let mut r: HotkeyRegistry<u64> = HotkeyRegistry::new();
    r.record(7, 70, "speakers".to_string());
    r.record(9, 90, "headset".to_string());
    assert_eq!(r.len(), 2);
    assert_eq!(r.device_for_event(7, true), Some("speakers".to_string()));
    assert_eq!(r.device_for_event(9, true), Some("headset".to_string()));
    assert_eq!(r.device_for_event(7, false), None);
    assert_eq!(r.device_for_event(8, true), None);
    r.record(7, 71, "hdmi".to_string());
    assert_eq!(r.device_for_event(7, true), Some("hdmi".to_string()));
    let mut handles = r.take_all();
    handles.sort();
    assert_eq!(handles, vec![71, 90]);
    assert_eq!(r.len(), 0);
    assert_eq!(r.device_for_event(9, true), None);
}

#[test]
fn registry_windows_ids_and_messages() {
    let mut r: HotkeyRegistry<()> = HotkeyRegistry::new();
    assert_eq!(r.next_id(), 1);
    let a = r.allocate_id();
    let b = r.allocate_id();
    assert_eq!((a, b), (1, 2));
    assert_eq!(r.next_id(), 3);
    r.record(a as u32, (), "speakers".to_string());
    assert_eq!(r.handle_hotkey(WM_HOTKEY, 1), Some("speakers".to_string()));
    assert_eq!(r.handle_hotkey(0x0100, 1), None);
    assert_eq!(r.handle_hotkey(WM_HOTKEY, 2), None);
    // The id is the low 32 bits of wParam, read as a signed number.
    assert_eq!(r.handle_hotkey(WM_HOTKEY, (1usize << 32) + 1), Some("speakers".to_string()));
    assert_eq!(r.handle_hotkey(WM_HOTKEY, 0xFFFF_FFFF), None);
    r.take_all();
    assert_eq!(r.next_id(), 3);
}

#[test]
fn one_plan_step_per_device_after_reassigning() {
    let mut s = Shortcuts::new();
    s.insert("speakers".to_string(), shortcut(true, false, false, false, "K"));
    s.insert("headset".to_string(), shortcut(false, true, false, false, "J"));
    s.insert("speakers".to_string(), shortcut(false, false, true, false, "L"));
    s.pairs_agree_with_view();
    let plan = plan_hotkeys(&s);
    assert_eq!(plan.len(), 2);
    let ids: Vec<String> = plan
        .iter()
        .map(|p| match p {
            HotkeyPlan::Register { device_id, .. } => device_id.clone(),
            other => panic!("unexpected {other:?}"),
        })
        .collect();
    assert_eq!(ids, vec!["speakers".to_string(), "headset".to_string()]);
    match &plan[0] {
        HotkeyPlan::Register { key, .. } => assert_eq!(*key, KeyCode::Letter('L')),
        other => panic!("unexpected {other:?}"),
    }
}
