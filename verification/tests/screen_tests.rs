use audio_switcher::screen::{load_icon, screen_size_candidates};

const XRANDR: &str = "Screen 0: minimum 320 x 200, current 3840 x 1080, maximum 16384 x 16384\n\
eDP-1 connected primary 1920x1080+0+0 (normal left inverted right x axis y axis) 344mm x 194mm\n   \
1920x1080     60.02*+  59.93\n\
HDMI-1 disconnected (normal left inverted right x axis y axis)\n\
DP-1 connected 1920x1200+1920+0 (normal left inverted right x axis y axis) 518mm x 324mm\n";

#[test]
fn candidates_from_connected_outputs() {
    let c = screen_size_candidates(XRANDR);
    let c: Vec<(&str, &str)> = c.iter().map(|(w, h)| (w.as_str(), h.as_str())).collect();
    assert_eq!(c, vec![("1920", "1080"), ("1920", "1200")]);
}

#[test]
fn candidates_edge_cases() {
    assert!(screen_size_candidates("").is_empty());
    assert!(screen_size_candidates("HDMI-1 disconnected 1024x768+0+0\n").is_empty());
    // Windows line ends and odd geometry words.
    let c = screen_size_candidates("A connected axb+1 +5 x+1 800x600+0+0\r\nB connected");
    let c: Vec<(&str, &str)> = c.iter().map(|(w, h)| (w.as_str(), h.as_str())).collect();
    assert_eq!(c, vec![("a", "b"), ("", ""), ("800", "600")]);
    // The first screen size is the first candidate whose parts are numbers.
    let first = screen_size_candidates("X connected axb+1 1280x720+0+0")
        .into_iter()
        .find(|(w, h)| w.parse::<f32>().is_ok() && h.parse::<f32>().is_ok());
    assert_eq!(first, Some(("1280".to_string(), "720".to_string())));
}

#[test]
fn icon_decoding() {
    assert!(load_icon(&[]).is_none());
    assert!(load_icon(b"not an image").is_none());
    // A 1x1 PNG with one opaque red pixel.
    let png: [u8; 70] = [
        0x89, 0x50, 0x4E, 0x47, 0x0D, 0x0A, 0x1A, 0x0A, 0x00, 0x00, 0x00, 0x0D, 0x49, 0x48, 0x44,
        0x52, 0x00, 0x00, 0x00, 0x01, 0x00, 0x00, 0x00, 0x01, 0x08, 0x06, 0x00, 0x00, 0x00, 0x1F,
        0x15, 0xC4, 0x89, 0x00, 0x00, 0x00, 0x0D, 0x49, 0x44, 0x41, 0x54, 0x78, 0x9C, 0x63, 0xF8,
        0xCF, 0xC0, 0xF0, 0x1F, 0x00, 0x05, 0x00, 0x01, 0xFF, 0x89, 0x99, 0x3D, 0x1D, 0x00, 0x00,
        0x00, 0x00, 0x49, 0x45, 0x4E, 0x44, 0xAE, 0x42, 0x60, 0x82,
    ];
    let icon = load_icon(&png).unwrap();
    assert_eq!((icon.width, icon.height), (1, 1));
    assert_eq!(icon.rgba, vec![255, 0, 0, 255]);
}
