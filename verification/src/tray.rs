//! The tray icon: the entries of its menu, what a click on an entry means,
//! the picture of the icon, and the menu theme.
use crate::audio::{Device, DeviceView};
use crate::settings::Theme;
use crate::text::str_equal;
use vstd::prelude::*;

verus! {

/// Menu id of the entry that quits the application.
pub open spec fn exit_id() -> Seq<char> {
    "exit"@
}

/// Menu id of the entry that opens the settings window.
pub open spec fn settings_id() -> Seq<char> {
    "settings"@
}

/// An entry of the tray menu.
#[derive(Debug)]
pub enum MenuEntry {
    /// A device; the checked one is the default device.
    Device { id: String, label: String, checked: bool },
    Separator,
    /// A command.
    Command { id: String, label: String },
}

/// The device entry for `d`, checked when it is the default device.
pub open spec fn device_entry_matches(e: MenuEntry, d: DeviceView, default_id: Option<Seq<char>>) -> bool {
    match e {
        MenuEntry::Device { id, label, checked } => id@ == d.id && label@ == d.name && checked == (
        default_id == Some(d.id)),
        _ => false,
    }
}

/// The view of an optional string.
pub open spec fn opt_view(s: Option<&str>) -> Option<Seq<char>> {
    match s {
        Some(t) => Some(t@),
        None => None,
    }
}

/// The tray menu: one entry per device, in order, with the default device
/// checked; then a separator, "Settings" and "Exit".
pub fn build_menu(devices: &Vec<Device>, default_id: Option<&str>) -> (menu: Vec<MenuEntry>)
    ensures
        menu@.len() == devices@.len() + 3,
        forall|i: int|
            0 <= i < devices@.len() ==> device_entry_matches(
                #[trigger] menu@[i],
                devices@[i]@,
                opt_view(default_id),
            ),
        menu@[devices@.len() as int] is Separator,
        menu@[devices@.len() + 1int] matches MenuEntry::Command { id, label } && id@ == settings_id()
            && label@ == "Settings"@,
        menu@[devices@.len() + 2int] matches MenuEntry::Command { id, label } && id@ == exit_id()
            && label@ == "Exit"@,
{
    let mut menu: Vec<MenuEntry> = Vec::new();
    let mut i: usize = 0;
    while i < devices.len()
        invariant
            0 <= i <= devices@.len(),
            menu@.len() == i,
            forall|j: int|
                0 <= j < i ==> device_entry_matches(
                    #[trigger] menu@[j],
                    devices@[j]@,
                    opt_view(default_id),
                ),
        decreases devices@.len() - i,
    {
        let d = &devices[i];
        let checked = match default_id {
            Some(id) => str_equal(id, d.id.as_str()),
            None => false,
        };
        menu.push(MenuEntry::Device { id: d.id.clone(), label: d.name.clone(), checked });
        i += 1;
    }
    menu.push(MenuEntry::Separator);
    menu.push(MenuEntry::Command { id: "settings".to_string(), label: "Settings".to_string() });
    menu.push(MenuEntry::Command { id: "exit".to_string(), label: "Exit".to_string() });
    menu
}

/// Law: when device ids are distinct, at most one device entry is checked,
/// and it is the default device.
pub proof fn law_single_checked_entry(
    menu: Seq<MenuEntry>,
    devices: Seq<DeviceView>,
    default_id: Option<Seq<char>>,
    i: int,
    j: int,
)
    requires
        menu.len() >= devices.len(),
        forall|k: int|
            0 <= k < devices.len() ==> device_entry_matches(#[trigger] menu[k], devices[k], default_id),
        forall|a: int, b: int|
            0 <= a < devices.len() && 0 <= b < devices.len() && a != b ==> #[trigger] devices[a].id
                != #[trigger] devices[b].id,
        0 <= i < devices.len(),
        0 <= j < devices.len(),
        menu[i] matches MenuEntry::Device { checked, .. } && checked,
        menu[j] matches MenuEntry::Device { checked, .. } && checked,
    ensures
        i == j,
        default_id == Some(devices[i].id),
{
    assert(device_entry_matches(menu[i], devices[i], default_id));
    assert(device_entry_matches(menu[j], devices[j], default_id));
}

/// What a click on a menu entry asks for.
#[derive(Debug)]
pub enum MenuAction {
    Exit,
    OpenSettings,
    /// Make the device with this id the default; `name` is the name of the
    /// first listed device with that id, if any.
    SwitchDevice { id: String, name: Option<String> },
}

/// The name of the first device with id `id`.
pub open spec fn first_name_with_id(devices: Seq<DeviceView>, id: Seq<char>) -> Option<Seq<char>>
    decreases devices.len(),
{
    if devices.len() == 0 {
        None
    } else if devices[0].id == id {
        Some(devices[0].name)
    } else {
        first_name_with_id(devices.drop_first(), id)
    }
}

/// The name of the first device with id `id`, if any.
pub fn find_device_name(devices: &Vec<Device>, id: &str) -> (r: Option<String>)
    ensures
        match r {
            Some(n) => first_name_with_id(devices@.map_values(|d: Device| d@), id@) == Some(n@),
            None => first_name_with_id(devices@.map_values(|d: Device| d@), id@) is None,
        },
{
    let ghost dv = devices@.map_values(|d: Device| d@);
    let mut i: usize = 0;
    assert(dv.subrange(0, dv.len() as int) =~= dv);
    while i < devices.len()
        invariant
            0 <= i <= devices@.len(),
            dv == devices@.map_values(|d: Device| d@),
            first_name_with_id(dv, id@) == first_name_with_id(dv.subrange(i as int, dv.len() as int), id@),
        decreases devices@.len() - i,
    {
        assert(dv.subrange(i as int, dv.len() as int).drop_first() =~= dv.subrange(i + 1, dv.len() as int));
        if str_equal(devices[i].id.as_str(), id) {
            return Some(devices[i].name.clone());
        }
        i += 1;
    }
    None
}

/// What the menu entry with id `id` asks for: "exit" quits, "settings" opens
/// the settings window, and any other id is a device to switch to.
pub fn menu_action(id: &str, devices: &Vec<Device>) -> (a: MenuAction)
    ensures
        id@ == exit_id() ==> a is Exit,
        id@ != exit_id() && id@ == settings_id() ==> a is OpenSettings,
        id@ != exit_id() && id@ != settings_id() ==> (a matches MenuAction::SwitchDevice { id: d, name }
            && d@ == id@ && match name {
            Some(n) => first_name_with_id(devices@.map_values(|d: Device| d@), id@) == Some(n@),
            None => first_name_with_id(devices@.map_values(|d: Device| d@), id@) is None,
        }),
{
    if str_equal(id, "exit") {
        MenuAction::Exit
    } else if str_equal(id, "settings") {
        MenuAction::OpenSettings
    } else {
        MenuAction::SwitchDevice { id: id.to_string(), name: find_device_name(devices, id) }
    }
}

/// The `SetPreferredAppMode` value that gives Win32 menus the theme: follow
/// the system (1), force dark (2) or force light (3).
pub fn preferred_app_mode(theme: Theme) -> (mode: u32)
    ensures
        mode == match theme {
            Theme::System => 1u32,
            Theme::Dark => 2u32,
            Theme::Light => 3u32,
        },
{
    match theme {
        Theme::System => 1,
        Theme::Dark => 2,
        Theme::Light => 3,
    }
}

// ---------------------------------------------------------------------------
// Icon
// ---------------------------------------------------------------------------

/// Side of the tray icon, in pixels.
pub const ICON_SIZE: u32 = 32;

/// Twice the distance of pixel (x, y) from the centre of the icon, measured
/// as the larger of the horizontal and vertical distance (a square ring).
pub open spec fn ring_distance2(x: int, y: int) -> int {
    let dx = if 2 * x - 31 >= 0 {
        2 * x - 31
    } else {
        31 - 2 * x
    };
    let dy = if 2 * y - 31 >= 0 {
        2 * y - 31
    } else {
        31 - 2 * y
    };
    if dx >= dy {
        dx
    } else {
        dy
    }
}

/// The colour of pixel (x, y): inside, a teal that darkens towards the edge
/// (with `t` the distance over 14, red is 30 + 20t, green 180 - 40t and blue
/// 170 - 30t, rounded down); then a one-pixel translucent border; transparent
/// outside.
pub open spec fn icon_pixel(x: int, y: int) -> Seq<u8> {
    let d = ring_distance2(x, y);
    if d < 28 {
        seq![
            (30 + (5 * d) / 7) as u8,
            ((1260 - 10 * d) / 7) as u8,
            ((2380 - 15 * d) / 14) as u8,
            255u8,
        ]
    } else if d < 30 {
        seq![20u8, 140u8, 130u8, 180u8]
    } else {
        seq![0u8, 0u8, 0u8, 0u8]
    }
}

/// The RGBA pixels of the placeholder tray icon, row by row.
pub fn placeholder_icon_rgba() -> (rgba: Vec<u8>)
    ensures
        rgba@.len() == 4 * 32 * 32,
        forall|p: int, c: int|
            0 <= p < 32 * 32 && 0 <= c < 4 ==> #[trigger] rgba@[4 * p + c] == icon_pixel(
                p % 32,
                p / 32,
            )[c],
{
    let mut rgba: Vec<u8> = Vec::new();
    let mut y: i32 = 0;
    while y < 32
        invariant
            0 <= y <= 32,
            rgba@.len() == 128 * y,
            forall|p: int, c: int|
                0 <= p < 32 * y && 0 <= c < 4 ==> #[trigger] rgba@[4 * p + c] == icon_pixel(
                    p % 32,
                    p / 32,
                )[c],
        decreases 32 - y,
    {
        let mut x: i32 = 0;
        while x < 32
            invariant
                0 <= y < 32,
                0 <= x <= 32,
                rgba@.len() == 128 * y + 4 * x,
                forall|p: int, c: int|
                    0 <= p < 32 * y + x && 0 <= c < 4 ==> #[trigger] rgba@[4 * p + c] == icon_pixel(
                        p % 32,
                        p / 32,
                    )[c],
            decreases 32 - x,
        {
            let dx = if 2 * x - 31 >= 0 {
                2 * x - 31
            } else {
                31 - 2 * x
            };
            let dy = if 2 * y - 31 >= 0 {
                2 * y - 31
            } else {
                31 - 2 * y
            };
            let d = if dx >= dy {
                dx
            } else {
                dy
            };
            let ghost px = icon_pixel(x as int, y as int);
            let ghost start = rgba@.len();
            let ghost p0 = 32 * y + x;
            assert(p0 % 32 == x && p0 / 32 == y);
            if d < 28 {
                rgba.push((30 + (5 * d) / 7) as u8);
                rgba.push(((1260 - 10 * d) / 7) as u8);
                rgba.push(((2380 - 15 * d) / 14) as u8);
                rgba.push(255);
            } else if d < 30 {
                rgba.push(20);
                rgba.push(140);
                rgba.push(130);
                rgba.push(180);
            } else {
                rgba.push(0);
                rgba.push(0);
                rgba.push(0);
                rgba.push(0);
            }
            assert forall|c: int| 0 <= c < 4 implies #[trigger] rgba@[4 * p0 + c] == px[c] by {}
            x += 1;
        }
        y += 1;
    }
    rgba
}

} // verus!
