use mcgen::text::{chars_of, first_segment, parse_u16, replace_all, replace_first, trim, IntErrorKind};

fn chars(s: &str) -> Vec<char> {
    s.chars().collect()
}

#[test]
fn replace_all_replaces_every_occurrence() {
    assert_eq!(replace_all("a{}b{}c", "{}", "X"), "aXbXc");
    assert_eq!(replace_all("{}{}", "{}", ""), "");
    assert_eq!(replace_all("none here", "{}", "X"), "none here");
    assert_eq!(replace_all("aaa", "aa", "b"), "ba");
}

#[test]
fn replace_first_replaces_one_occurrence() {
    assert_eq!(replace_first("a{}b{}c", "{}", "X"), "aXb{}c");
    assert_eq!(replace_first("nothing", "{}", "X"), "nothing");
    assert_eq!(replace_first("", "{}", "X"), "");
}

#[test]
fn trim_removes_unicode_white_space() {
    assert_eq!(trim("  Sun Aug 21 \t\n"), "Sun Aug 21");
    assert_eq!(trim("\u{3000}\u{a0}x y\u{2028}"), "x y");
    assert_eq!(trim("   "), "");
    assert_eq!(trim("a"), "a");
}

#[test]
fn first_segment_stops_at_separator() {
    assert_eq!(first_segment(&chars("1.19.2-R0.1-SNAPSHOT"), '-'), chars("1.19.2"));
    assert_eq!(first_segment(&chars("1.19.2"), '-'), chars("1.19.2"));
    assert_eq!(first_segment(&chars("-x"), '-'), chars(""));
}

#[test]
fn chars_of_keeps_order() {
    assert_eq!(chars_of("héllo"), vec!['h', 'é', 'l', 'l', 'o']);
}

#[test]
fn parse_u16_reads_decimal_numbers() {
    assert_eq!(parse_u16(&chars("0")), Ok(0));
    assert_eq!(parse_u16(&chars("65535")), Ok(65535));
    assert_eq!(parse_u16(&chars("+17")), Ok(17));
    assert_eq!(parse_u16(&chars("007")), Ok(7));
}

#[test]
fn parse_u16_errors_like_std() {
    assert_eq!(parse_u16(&chars("")), Err(IntErrorKind::Empty));
    assert_eq!(parse_u16(&chars("+")), Err(IntErrorKind::InvalidDigit));
    assert_eq!(parse_u16(&chars("-1")), Err(IntErrorKind::InvalidDigit));
    assert_eq!(parse_u16(&chars("1a")), Err(IntErrorKind::InvalidDigit));
    assert_eq!(parse_u16(&chars("65536")), Err(IntErrorKind::PosOverflow));
    assert_eq!(parse_u16(&chars("99999x")), Err(IntErrorKind::PosOverflow));
    assert_eq!(parse_u16(&chars("9x9999")), Err(IntErrorKind::InvalidDigit));
    for s in ["", "+", "-1", "1a", "65536", "99999x", "9x9999", "12", "+0", "٣"] {
        let expected = s.parse::<u16>().map_err(|e| format!("{}", e));
        let got = parse_u16(&chars(s)).map_err(|k| k.description().to_string());
        assert_eq!(got, expected, "input {:?}", s);
    }
}
