use audio_switcher::settings::{
    dark_from_apps_use_light_theme, shortcut_equal, system_is_dark, Settings, Shortcut, Shortcuts,
    Theme, ToastPosition, DEFAULT_TOAST_OPACITY_BITS,
};

fn shortcut(ctrl: bool, alt: bool, shift: bool, win_key: bool, key: &str) -> Shortcut {
    Shortcut { ctrl, alt, shift, win_key, key: key.to_string() }
}

#[test]
fn default_settings() {
    let s = Settings::default();
    assert!(s.play_sound);
    assert!(s.show_toast);
    assert!(s.toast_fade);
    assert_eq!(s.toast_duration_ms, 1000);
    assert_eq!(f32::from_bits(s.toast_opacity_bits), 0.75);
    assert_eq!(DEFAULT_TOAST_OPACITY_BITS, 0.75f32.to_bits());
    assert_eq!(s.theme, Theme::System);
    assert_eq!(s.toast_position, ToastPosition::BottomCenter);
    assert_eq!(s.shortcuts.len(), 0);
}

#[test]
fn theme_resolution() {
    let mut s = Settings::default();
    assert!(!system_is_dark());
    assert!(!s.is_dark());
    s.theme = Theme::Dark;
    assert!(s.is_dark());
    s.theme = Theme::Light;
    assert!(!s.is_dark());
}

#[test]
fn registry_value_for_dark_mode() {
    assert!(dark_from_apps_use_light_theme(true, 0));
    assert!(!dark_from_apps_use_light_theme(true, 1));
    assert!(!dark_from_apps_use_light_theme(false, 0));
}

#[test]
fn labels_and_lists() {
    let labels: Vec<String> = ToastPosition::all().iter().map(|p| p.to_string()).collect();
    assert_eq!(
        labels,
        vec!["Top left", "Top center", "Top right", "Bottom left", "Bottom center", "Bottom right"]
    );
    let themes: Vec<String> = Theme::all().iter().map(|t| t.to_string()).collect();
    assert_eq!(themes, vec!["System", "Dark", "Light"]);
    assert_eq!(ToastPosition::all().len(), 6);
}

#[test]
fn shortcut_text() {
    assert_eq!(shortcut(true, true, false, false, "K").to_string(), "Ctrl+Alt+K");
    assert_eq!(shortcut(false, false, true, true, "F5").to_string(), "Shift+Win+F5");
    assert_eq!(shortcut(true, true, true, true, "Space").to_string(), "Ctrl+Alt+Shift+Win+Space");
    assert_eq!(shortcut(false, false, false, false, "Q").to_string(), "Q");
}

#[test]
fn shortcuts_read_back_what_was_written() {
    let mut s = Shortcuts::new();
    assert!(s.get("a").is_none());
    s.insert("a".to_string(), shortcut(true, false, false, false, "A"));
    s.insert("b".to_string(), shortcut(false, true, false, false, "B"));
    assert_eq!(s.len(), 2);
    assert_eq!(s.get("a").unwrap().key, "A");
    assert_eq!(s.get("b").unwrap().key, "B");
    // Replacing keeps the place.
    s.insert("a".to_string(), shortcut(false, false, true, false, "C"));
    assert_eq!(s.len(), 2);
    assert_eq!(s.get("a").unwrap().key, "C");
    assert!(s.get("a").unwrap().shift);
    let (first, _) = s.pair_at(0);
    assert_eq!(first, "a");
    assert!(s.contains_key("b"));
    assert!(s.remove("b"));
    assert!(!s.remove("b"));
    assert!(!s.contains_key("b"));
    assert!(s.get("b").is_none());
    assert_eq!(s.get("a").unwrap().key, "C");
}

#[test]
fn shortcuts_from_pairs_later_wins() {
    let s = Shortcuts::from_pairs(vec![
        ("x".to_string(), shortcut(true, false, false, false, "1")),
        ("y".to_string(), shortcut(true, false, false, false, "2")),
        ("x".to_string(), shortcut(true, false, false, false, "3")),
    ]);
    assert_eq!(s.len(), 2);
    assert_eq!(s.get("x").unwrap().key, "3");
    assert_eq!(s.get("y").unwrap().key, "2");
}

#[test]
fn shortcut_copies_compare_equal() {
    let a = shortcut(true, false, true, false, "F2");
    let b = a.duplicate();
    assert!(shortcut_equal(&a, &b));
    assert!(!shortcut_equal(&a, &shortcut(true, false, true, true, "F2")));
    assert!(!shortcut_equal(&a, &shortcut(true, false, true, false, "F3")));
}

#[test]
fn shortcuts_same_as_ignores_order() {
    let mut a = Shortcuts::new();
    a.insert("x".to_string(), shortcut(true, false, false, false, "1"));
    a.insert("y".to_string(), shortcut(false, true, false, false, "2"));
    let mut b = Shortcuts::new();
    b.insert("y".to_string(), shortcut(false, true, false, false, "2"));
    b.insert("x".to_string(), shortcut(true, false, false, false, "1"));
    assert!(a.same_as(&b));
    assert!(b.same_as(&a));
    let c = a.duplicate();
    assert!(c.same_as(&a));
    assert_eq!(c.len(), 2);
    b.insert("x".to_string(), shortcut(true, false, false, false, "9"));
    assert!(!a.same_as(&b));
    b.remove("x");
    assert!(!a.same_as(&b));
    assert!(!b.same_as(&a));
}

#[test]
fn settings_change_detection() {
    let before = Settings::default();
    let mut after = before.duplicate();
    let c = after.change_from(&before, true);
    assert!(!c.changed);
    assert!(!c.theme_changed);
    // A different opacity, as the caller judges it, is a change.
    let c = after.change_from(&before, false);
    assert!(c.changed);
    assert!(!c.theme_changed);
    after.theme = Theme::Dark;
    let c = after.change_from(&before, true);
    assert!(c.changed);
    assert!(c.theme_changed);
    let mut after = before.duplicate();
    after.shortcuts.insert("x".to_string(), shortcut(true, false, false, false, "1"));
    let c = after.change_from(&before, true);
    assert!(c.changed);
    assert!(!c.theme_changed);
    let mut after = before.duplicate();
    after.toast_duration_ms = 2000;
    assert!(after.change_from(&before, true).changed);
}
