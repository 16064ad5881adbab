use lib::text::{
    ascii_lower_one, chars_of, contains_literal, decimal_string, is_white_space_char, str_equals,
    string_from_chars, trim_range,
};

fn all_chars() -> impl Iterator<Item = char> {
    (0u32..=0x10FFFF).filter_map(char::from_u32)
}

#[test]
fn white_space_matches_std_for_every_char() {
    for c in all_chars() {
        assert_eq!(is_white_space_char(c), c.is_whitespace(), "{:?}", c);
    }
}

#[test]
fn ascii_lowering_matches_std_for_every_char() {
    for c in all_chars() {
        assert_eq!(ascii_lower_one(c), c.to_ascii_lowercase(), "{:?}", c);
    }
}

#[test]
fn trim_matches_std_trim() {
    let samples = [
        "",
        "   ",
        "  ls -la  ",
        "\t\u{a0}echo hi\u{3000}\r\n",
        "no-space",
        "\u{2028}x\u{85}",
        " a b ",
    ];
    for s in samples {
        let chars = chars_of(s);
        let (a, b) = trim_range(&chars, 0, chars.len());
        let got: String = chars[a..b].iter().collect();
        assert_eq!(got, s.trim(), "{:?}", s);
    }
}

#[test]
fn chars_round_trip_through_string() {
    let s = "héllo wörld ✓";
    let chars = chars_of(s);
    assert_eq!(chars, s.chars().collect::<Vec<_>>());
    assert_eq!(string_from_chars(&chars), s);
}

#[test]
fn substring_search() {
    let hay = chars_of("c:\\windows\\system32\\cmd.exe");
    assert!(contains_literal(&hay, "cmd.exe"));
    assert!(contains_literal(&hay, ""));
    assert!(!contains_literal(&hay, "pwsh"));
    assert!(!contains_literal(&chars_of("cmd"), "cmd.exe"));
}

#[test]
fn string_equality() {
    assert!(str_equals("--help", "--help"));
    assert!(!str_equals("--help", "--hel"));
    assert!(!str_equals("-H", "-h"));
}

#[test]
fn decimal_matches_to_string() {
    for n in [0u64, 7, 10, 99, 100, 4_294_967_295, u64::MAX] {
        assert_eq!(decimal_string(n), n.to_string());
    }
}
