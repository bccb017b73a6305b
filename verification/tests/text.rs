use william::text::{lowercase_ascii, parse_i32, parse_u32, starts_with, str_eq, trim, uppercase};

const SAMPLES: [&str; 22] = [
    "", "0", "7", "2024", "+5", "-5", "-0", "+", "-", "+-1", "--1", " 5", "5 ", "12a", "2147483647",
    "2147483648", "-2147483648", "-2147483649", "4294967295", "4294967296", "00012", "\u{663}",
];

#[test]
fn parse_i32_matches_std() {
    for s in SAMPLES.iter() {
        assert_eq!(parse_i32(s), s.parse::<i32>().ok(), "input {:?}", s);
    }
    assert_eq!(parse_i32("-2147483648"), Some(i32::MIN));
    assert_eq!(parse_i32("+"), None);
}

#[test]
fn parse_u32_matches_std() {
    for s in SAMPLES.iter() {
        assert_eq!(parse_u32(s), s.parse::<u32>().ok(), "input {:?}", s);
    }
    assert_eq!(parse_u32("4294967295"), Some(u32::MAX));
    assert_eq!(parse_u32("-0"), None);
}

#[test]
fn parse_reads_back_printed_numbers() {
    for n in [0i32, 1, -1, 42, 2024, i32::MAX, i32::MIN] {
        assert_eq!(parse_i32(&n.to_string()), Some(n));
    }
    for n in [0u32, 7, 12, u32::MAX] {
        assert_eq!(parse_u32(&n.to_string()), Some(n));
    }
}

#[test]
fn trim_matches_std() {
    for s in [
        "", "  ", "a", "  a b  ", "\t\nx\r\n", "\u{A0}x\u{2003}", "\u{200B}x", "\u{85}x\u{3000}",
        "\u{1680}\u{2028}\u{2029}\u{202F}\u{205F}x\u{0B}\u{0C}", "\u{2000}\u{200A}x\u{180E}",
    ] {
        assert_eq!(trim(s), s.trim());
    }
}

#[test]
fn trim_drops_every_unicode_blank() {
    let blanks: String = [
        '\u{9}', '\u{A}', '\u{B}', '\u{C}', '\u{D}', ' ', '\u{85}', '\u{A0}', '\u{1680}', '\u{2000}',
        '\u{2001}', '\u{2002}', '\u{2003}', '\u{2004}', '\u{2005}', '\u{2006}', '\u{2007}',
        '\u{2008}', '\u{2009}', '\u{200A}', '\u{2028}', '\u{2029}', '\u{202F}', '\u{205F}',
        '\u{3000}',
    ]
    .iter()
    .collect();
    assert_eq!(blanks.chars().count(), 25);
    let padded = format!("{blanks}a-b/c_1{blanks}");
    assert_eq!(trim(&padded), "a-b/c_1");
    for c in ['\u{200B}', '\u{180E}', '\u{FEFF}', 'x'] {
        let s = c.to_string();
        assert_eq!(trim(&s), s.as_str());
    }
}

#[test]
fn case_helpers() {
    assert_eq!(uppercase("groceries"), "GROCERIES");
    assert_eq!(uppercase("stra\u{DF}e"), "STRASSE");
    assert_eq!(lowercase_ascii("PERSONAL_CARE"), "personal_care");
    assert_eq!(lowercase_ascii("\u{C4}B"), "\u{C4}b");
}

#[test]
fn prefix_and_equality() {
    assert!(starts_with("/cancel now", "/cancel"));
    assert!(starts_with("/cancel", "/cancel"));
    assert!(!starts_with("/canc", "/cancel"));
    assert!(!starts_with("cancel", "/cancel"));
    assert!(str_eq("UNKNOWN", "UNKNOWN"));
    assert!(!str_eq("UNKNOWN", "UNKNOWn"));
    assert!(!str_eq("", "a"));
}
