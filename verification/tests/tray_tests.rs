use audio_switcher::audio::Device;
use audio_switcher::settings::Theme;
use audio_switcher::tray::{
    build_menu, find_device_name, menu_action, placeholder_icon_rgba, preferred_app_mode,
    MenuAction, MenuEntry,
};

fn device(id: &str, name: &str) -> Device {
    Device { id: id.to_string(), name: name.to_string(), label: name.to_string() }
}

#[test]
fn menu_checks_the_default_device() {
    let devices = vec![device("a", "Speakers"), device("b", "Headset")];
    let menu = build_menu(&devices, Some("b"));
    assert_eq!(menu.len(), 5);
    match &menu[0] {
        MenuEntry::Device { id, label, checked } => {
            assert_eq!((id.as_str(), label.as_str(), *checked), ("a", "Speakers", false))
        }
        other => panic!("unexpected {other:?}"),
    }
    match &menu[1] {
        MenuEntry::Device { id, label, checked } => {
            assert_eq!((id.as_str(), label.as_str(), *checked), ("b", "Headset", true))
        }
        other => panic!("unexpected {other:?}"),
    }
    assert!(matches!(menu[2], MenuEntry::Separator));
    match (&menu[3], &menu[4]) {
        (MenuEntry::Command { id: i1, label: l1 }, MenuEntry::Command { id: i2, label: l2 }) => {
            assert_eq!((i1.as_str(), l1.as_str()), ("settings", "Settings"));
            assert_eq!((i2.as_str(), l2.as_str()), ("exit", "Exit"));
        }
        other => panic!("unexpected {other:?}"),
    }
}

#[test]
fn menu_without_default() {
    let devices = vec![device("a", "Speakers")];
    for default in [None, Some("zzz")] {
        let menu = build_menu(&devices, default);
        assert!(matches!(menu[0], MenuEntry::Device { checked: false, .. }));
    }
    assert_eq!(build_menu(&vec![], None).len(), 3);
}

#[test]
fn menu_actions() {
    let devices = vec![device("a", "Speakers"), device("a", "Duplicate"), device("b", "Headset")];
    assert!(matches!(menu_action("exit", &devices), MenuAction::Exit));
    assert!(matches!(menu_action("settings", &devices), MenuAction::OpenSettings));
    match menu_action("a", &devices) {
        MenuAction::SwitchDevice { id, name } => {
            assert_eq!(id, "a");
            assert_eq!(name, Some("Speakers".to_string()));
        }
        other => panic!("unexpected {other:?}"),
    }
    match menu_action("unknown", &devices) {
        MenuAction::SwitchDevice { id, name } => {
            assert_eq!(id, "unknown");
            assert_eq!(name, None);
        }
        other => panic!("unexpected {other:?}"),
    }
    assert_eq!(find_device_name(&devices, "b"), Some("Headset".to_string()));
}

#[test]
fn app_modes() {
    assert_eq!(preferred_app_mode(Theme::System), 1);
    assert_eq!(preferred_app_mode(Theme::Dark), 2);
    assert_eq!(preferred_app_mode(Theme::Light), 3);
}

/// The icon as computed with single-precision arithmetic.
fn float_icon() -> Vec<u8> {
    let size = 32u32;
    let mut rgba = Vec::with_capacity((size * size * 4) as usize);
    for y in 0..size {
        for x in 0..size {
            let dx = (x as f32 - 15.5).abs();
            let dy = (y as f32 - 15.5).abs();
            let dist = dx.max(dy);
            if dist < 14.0 {
                let t = dist / 14.0;
                let r = (30.0 + t * 20.0) as u8;
                let g = (180.0 - t * 40.0) as u8;
                let b = (170.0 - t * 30.0) as u8;
                rgba.extend_from_slice(&[r, g, b, 255]);
            } else if dist < 15.0 {
                rgba.extend_from_slice(&[20, 140, 130, 180]);
            } else {
                rgba.extend_from_slice(&[0, 0, 0, 0]);
            }
        }
    }
    rgba
}

#[test]
fn icon_matches_float_rendering() {
    let icon = placeholder_icon_rgba();
    assert_eq!(icon.len(), 32 * 32 * 4);
    assert_eq!(icon, float_icon());
    // Centre pixel, border pixel and corner pixel.
    assert_eq!(&icon[(16 * 32 + 16) * 4..(16 * 32 + 16) * 4 + 4], &[30, 178, 168, 255]);
    assert_eq!(&icon[(16 * 32 + 1) * 4..(16 * 32 + 1) * 4 + 4], &[20, 140, 130, 180]);
    assert_eq!(&icon[0..4], &[0, 0, 0, 0]);
}
