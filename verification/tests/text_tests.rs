use audio_switcher::text::{
    chars_of, decimal_string, parse_unsigned_range, str_equal, string_from_chars, trim_range,
};

fn parse(s: &str, max: u32) -> Option<u32> {
    parse_unsigned_range(&chars_of(s), 0, max)
}

#[test]
fn parse_matches_std_for_u32() {
    let samples = [
        "0", "7", "+7", "007", "4294967295", "4294967296", "99999999999", "", "+", "-", "-0",
        "-1", "1 ", " 1", "1a", "a1", "++1", "+-1", "١", "12\n", "+0000000000000000000042",
    ];
    for s in samples {
        assert_eq!(parse(s, u32::MAX), s.parse::<u32>().ok(), "{s:?}");
    }
}

#[test]
fn parse_matches_std_for_u8() {
    let samples = ["0", "255", "256", "+255", "1000", "", "x", "012"];
    for s in samples {
        assert_eq!(parse(s, 255), s.parse::<u8>().ok().map(u32::from), "{s:?}");
    }
}

#[test]
fn parse_from_offset() {
    let v = chars_of("F12");
    assert_eq!(parse_unsigned_range(&v, 1, 255), Some(12));
    assert_eq!(parse_unsigned_range(&v, 3, 255), None);
}

#[test]
fn decimal_round_trip() {
    for n in [0u32, 1, 9, 10, 99, 100, 1000, 65535, 4294967295] {
        let s = decimal_string(n);
        assert_eq!(s, n.to_string());
        assert_eq!(parse(&s, u32::MAX), Some(n));
    }
}

#[test]
fn trimming_matches_std() {
    for s in ["", "  ", "a", " a ", "\t a b \n", "\u{2003}x\u{2029}", "\u{85}y", "\u{200b}z"] {
        let v = chars_of(s);
        let (a, b) = trim_range(&v);
        let got: String = v[a..b].iter().collect();
        assert_eq!(got, s.trim(), "{s:?}");
    }
}

#[test]
fn string_conversions() {
    let v = chars_of("héllo");
    assert_eq!(v.len(), 5);
    assert_eq!(string_from_chars(&v), "héllo");
    assert!(str_equal("abc", "abc"));
    assert!(!str_equal("abc", "abd"));
    assert!(!str_equal("abc", "ab"));
}
