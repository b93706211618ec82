use audio_switcher::settings::{Settings, Shortcut, Shortcuts};
use audio_switcher::settings_window::{
    capture_key, contains_string, duplicate_shortcut_devices, shortcut_cell, CaptureOutcome,
    ShortcutCell,
};

fn shortcut(ctrl: bool, alt: bool, key: &str) -> Shortcut {
    Shortcut { ctrl, alt, shift: false, win_key: false, key: key.to_string() }
}

#[test]
fn duplicates_are_flagged_for_every_device_involved() {
    let mut s = Shortcuts::new();
    s.insert("a".to_string(), shortcut(true, false, "K"));
    s.insert("b".to_string(), shortcut(true, false, "J"));
    s.insert("c".to_string(), shortcut(true, false, "K"));
    s.insert("d".to_string(), shortcut(true, false, "K"));
    s.insert("e".to_string(), shortcut(false, true, "K"));
    let dups = duplicate_shortcut_devices(&s);
    assert_eq!(dups, vec!["a", "c", "d"]);
    s.remove("c");
    s.remove("d");
    assert!(duplicate_shortcut_devices(&s).is_empty());
}

#[test]
fn cells_of_the_shortcut_table() {
    let mut s = Shortcuts::new();
    s.insert("a".to_string(), shortcut(true, false, "K"));
    s.insert("b".to_string(), shortcut(true, false, "K"));
    let dups = duplicate_shortcut_devices(&s);
    assert!(contains_string(&dups, "a"));
    assert!(!contains_string(&dups, "z"));
    let capturing = Some("a".to_string());
    assert_eq!(shortcut_cell(&s, "a", &capturing, &dups), ShortcutCell::Capturing);
    assert_eq!(
        shortcut_cell(&s, "b", &capturing, &dups),
        ShortcutCell::Assigned { text: "Ctrl+K".to_string(), duplicate: true }
    );
    assert_eq!(shortcut_cell(&s, "c", &None, &dups), ShortcutCell::Unassigned);
    assert_eq!(
        shortcut_cell(&s, "a", &None, &vec![]),
        ShortcutCell::Assigned { text: "Ctrl+K".to_string(), duplicate: false }
    );
}

#[test]
fn capturing_a_shortcut() {
    let mut settings = Settings::default();
    let mut capturing: Option<String> = None;
    assert_eq!(capture_key(&mut settings, &mut capturing, "K", true, false, false), CaptureOutcome::Ignored);
    assert_eq!(settings.shortcuts.len(), 0);

    capturing = Some("speakers".to_string());
    assert_eq!(capture_key(&mut settings, &mut capturing, "K", false, false, false), CaptureOutcome::Ignored);
    assert_eq!(capturing, Some("speakers".to_string()));
    assert_eq!(capture_key(&mut settings, &mut capturing, "K", true, false, true), CaptureOutcome::Assigned);
    assert_eq!(capturing, None);
    let sc = settings.shortcuts.get("speakers").unwrap();
    assert_eq!(sc.to_string(), "Ctrl+Shift+K");
    assert!(!sc.win_key);

    capturing = Some("speakers".to_string());
    assert_eq!(capture_key(&mut settings, &mut capturing, "Escape", true, false, false), CaptureOutcome::Cancelled);
    assert_eq!(capturing, None);
    assert_eq!(settings.shortcuts.get("speakers").unwrap().key, "K");
}

#[test]
fn duplicates_come_in_table_order() {
    let mut s = Shortcuts::new();
    s.insert("z".to_string(), shortcut(false, true, "Q"));
    s.insert("m".to_string(), shortcut(true, false, "K"));
    s.insert("a".to_string(), shortcut(false, true, "Q"));
    s.insert("b".to_string(), shortcut(true, false, "K"));
    assert_eq!(duplicate_shortcut_devices(&s), vec!["z", "m", "a", "b"]);
}
