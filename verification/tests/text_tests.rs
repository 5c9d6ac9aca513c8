use pkm::text::{
    decimal_string, hex_string, join_strings, lex_le_exec, pad_to, parse_u16, trim_str,
};

#[test]
fn parse_u16_accepts_what_std_accepts() {
    let cases = [
        "0", "1", "65535", "65536", "+5", "-1", "", "+", " 1", "1 ", "00012", "abc", "12a",
        "99999999999999999999",
    ];
    for case in cases {
        assert_eq!(parse_u16(case), case.parse::<u16>().ok(), "input {:?}", case);
    }
}

#[test]
fn parse_u16_edges() {
    assert_eq!(parse_u16("65535"), Some(65535));
    assert_eq!(parse_u16("65536"), None);
    assert_eq!(parse_u16("+7"), Some(7));
    assert_eq!(parse_u16("007"), Some(7));
    assert_eq!(parse_u16(""), None);
}

#[test]
fn trim_matches_std_trim() {
    let cases = ["  a b  ", "\t\nx\r\n", "", "   ", "\u{3000}wide\u{a0}", "no-space"];
    for case in cases {
        assert_eq!(trim_str(case), case.trim(), "input {:?}", case);
    }
}

#[test]
fn decimal_and_hex_rendering() {
    assert_eq!(decimal_string(0), "0");
    assert_eq!(decimal_string(1234), "1234");
    assert_eq!(decimal_string(u64::MAX), u64::MAX.to_string());
    assert_eq!(hex_string(0), "0");
    assert_eq!(hex_string(255), "ff");
    assert_eq!(hex_string(0x8000_0000_0000), "800000000000");
}

#[test]
fn join_and_pad() {
    let parts = vec!["a".to_string(), "bc".to_string(), "d".to_string()];
    assert_eq!(join_strings(&parts, ", "), "a, bc, d");
    assert_eq!(join_strings(&Vec::new(), ","), "");
    assert_eq!(pad_to("ab", 5), "ab   ");
    assert_eq!(pad_to("abcdef", 3), "abcdef");
    assert_eq!(pad_to("é", 3), format!("{:<3}", "é"));
}

#[test]
fn lexicographic_order_matches_string_order() {
    let pairs = [("a", "b"), ("b", "a"), ("ab", "a"), ("a", "ab"), ("", "x"), ("x", "x"), ("Z", "a")];
    for (a, b) in pairs {
        assert_eq!(lex_le_exec(a, b), a <= b, "{:?} <= {:?}", a, b);
    }
}
