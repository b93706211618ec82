use audio_switcher::audio::{
    default_sink_from_output, device_from_endpoint, devices_from_sinks, initialise,
    list_devices_from_json, set_default_outcome, SinkEntry,
};

const PACTL_SINKS: &str = r#"[
  {"index": 57, "state": "RUNNING", "name": "alsa_output.pci-0000_00_1f.3.analog-stereo",
   "description": "Built-in Audio Analog Stereo", "driver": "PipeWire"},
  {"index": 60, "name": "bluez_output.AA_BB", "description": null},
  {"index": 61, "description": "Nameless"},
  {"index": 62, "name": 5, "description": "Numeric name"},
  {"index": 63, "name": "hdmi", "description": "HDMI / DisplayPort"}
]"#;

#[test]
fn initialise_does_nothing() {
    initialise();
}

#[test]
fn devices_from_pactl_json() {
    let devices = list_devices_from_json(PACTL_SINKS).unwrap();
    assert_eq!(devices.len(), 3);
    assert_eq!(devices[0].id, "alsa_output.pci-0000_00_1f.3.analog-stereo");
    assert_eq!(devices[0].name, "Built-in Audio Analog Stereo");
    assert_eq!(devices[0].label, "Built-in Audio Analog Stereo");
    // A description that is not a string falls back to the name.
    assert_eq!(devices[1].id, "bluez_output.AA_BB");
    assert_eq!(devices[1].name, "bluez_output.AA_BB");
    assert_eq!(devices[2].id, "hdmi");
    assert_eq!(devices[2].name, "HDMI / DisplayPort");
}

#[test]
fn pactl_json_edge_cases() {
    assert_eq!(list_devices_from_json("[]").unwrap().len(), 0);
    assert!(list_devices_from_json("not json").is_err());
    assert!(list_devices_from_json("{\"name\": \"x\"}").is_err());
    assert!(list_devices_from_json("").is_err());
    // Elements that are not objects have no name and are left out.
    assert_eq!(list_devices_from_json("[1, \"two\", null]").unwrap().len(), 0);
}

#[test]
fn devices_from_sink_entries() {
    let sinks = vec![
        SinkEntry { name: Some("a".to_string()), description: Some("Alpha".to_string()) },
        SinkEntry { name: None, description: Some("ignored".to_string()) },
        SinkEntry { name: Some("b".to_string()), description: None },
    ];
    let devices = devices_from_sinks(&sinks);
    assert_eq!(devices.len(), 2);
    assert_eq!((devices[0].id.as_str(), devices[0].name.as_str()), ("a", "Alpha"));
    assert_eq!((devices[1].id.as_str(), devices[1].name.as_str()), ("b", "b"));
}

#[test]
fn default_sink_output() {
    assert_eq!(
        default_sink_from_output("alsa_output.usb-headset\n"),
        Some("alsa_output.usb-headset".to_string())
    );
    assert_eq!(default_sink_from_output("  hdmi \t\r\n"), Some("hdmi".to_string()));
    assert_eq!(default_sink_from_output("a b\n"), Some("a b".to_string()));
    assert_eq!(default_sink_from_output(""), None);
    assert_eq!(default_sink_from_output(" \n\t "), None);
    assert_eq!(default_sink_from_output("\u{3000}x\u{a0}"), Some("x".to_string()));
}

#[test]
fn set_default_messages() {
    assert_eq!(set_default_outcome(true, "ignored"), Ok(()));
    assert_eq!(
        set_default_outcome(false, "Failure: No such entity"),
        Err("pactl set-default-sink failed: Failure: No such entity".to_string())
    );
    assert_eq!(
        set_default_outcome(false, ""),
        Err("pactl set-default-sink failed: ".to_string())
    );
}

#[test]
fn endpoint_names() {
    let d = device_from_endpoint("{id-1}".to_string(), "Speakers".to_string(), "Realtek".to_string());
    assert_eq!((d.id.as_str(), d.name.as_str(), d.label.as_str()), ("{id-1}", "Speakers", "Realtek"));
    let d = device_from_endpoint("{id-2}".to_string(), String::new(), "USB".to_string());
    assert_eq!((d.id.as_str(), d.name.as_str(), d.label.as_str()), ("{id-2}", "{id-2}", "USB"));
}
