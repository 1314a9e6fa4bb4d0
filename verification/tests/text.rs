use proxmox_znc::lexical::{
    decimal_text, has_prefix, has_suffix, join_text, lines_of, parse_bounded, trimmed, words_of,
    without_eol,
};
use proxmox_znc::prompt::{number, port_number, question_line, secret, secret_question_line, text};

#[test]
fn words_follow_split_whitespace() {
    for s in ["", "  ", "a", " a  b\tc\n", "x\u{00A0}y\u{3000}z", "trailing \r\n"] {
        let expected: Vec<String> = s.split_whitespace().map(|w| w.to_string()).collect();
        assert_eq!(words_of(s), expected, "{s:?}");
    }
}

#[test]
fn lines_follow_str_lines() {
    for s in ["", "\n", "a", "a\n", "a\r\nb", "a\n\nb\n", "x\r", "x\r\ny\r", "\r\n\r\n"] {
        let expected: Vec<String> = s.lines().map(|l| l.to_string()).collect();
        assert_eq!(lines_of(s), expected, "{s:?}");
    }
}

#[test]
fn trimming() {
    for s in ["", "  a b  ", "\n\tx\r\n", "\u{2003}y\u{2003}", "   "] {
        assert_eq!(trimmed(s), s.trim());
    }
    assert_eq!(without_eol("abc\r\n\n"), "abc");
    assert_eq!(without_eol("a\nb\n"), "a\nb");
    assert_eq!(without_eol("  x  \n"), "  x  ");
}

#[test]
fn decimal_numbers() {
    for n in [0u64, 7, 10, 99, 6501, 4294967295, u64::MAX] {
        assert_eq!(decimal_text(n), n.to_string());
    }
    assert_eq!(parse_bounded("42", 100), Some(42));
    assert_eq!(parse_bounded("+42", 100), Some(42));
    assert_eq!(parse_bounded("0042", 100), Some(42));
    assert_eq!(parse_bounded("101", 100), None);
    assert_eq!(parse_bounded("-1", 100), None);
    assert_eq!(parse_bounded("+", 100), None);
    assert_eq!(parse_bounded("", 100), None);
    assert_eq!(parse_bounded("1 2", 100), None);
    assert_eq!(parse_bounded("99999999999999999999", 4294967295), None);
    assert_eq!(parse_bounded("4294967295", 4294967295), Some(4294967295));
    assert_eq!(parse_bounded("18446744073709551615", u64::MAX), Some(u64::MAX));
    assert_eq!(parse_bounded("18446744073709551616", u64::MAX), None);
}

#[test]
fn decimal_round_trip() {
    for n in [0u64, 1, 9, 10, 65535, 4294967295] {
        assert_eq!(parse_bounded(decimal_text(n).as_str(), 4294967295), Some(n));
    }
}

#[test]
fn prefixes_suffixes_and_joins() {
    assert!(has_prefix("alpine-3.20", "alpine-"));
    assert!(!has_prefix("alp", "alpine-"));
    assert!(has_suffix("x_amd64.tar.xz", "_amd64.tar.xz"));
    assert!(!has_suffix("x_arm64.tar.xz", "_amd64.tar.xz"));
    let parts = vec!["a".to_string(), "b".to_string(), "c".to_string()];
    assert_eq!(join_text(&parts, " | "), "a | b | c");
    assert_eq!(join_text(&Vec::new(), " | "), "");
}

#[test]
fn question_lines() {
    assert_eq!(question_line("IRC nick", "znc"), "IRC nick [znc]: ");
    assert_eq!(secret_question_line("ZNC password"), "ZNC password: ");
}

#[test]
fn text_slot_filling() {
    let mut slot = None;
    text("dflt", "\r\n", &mut slot);
    assert_eq!(slot.as_deref(), Some("dflt"));
    let mut slot = None;
    text("dflt", "value\n", &mut slot);
    assert_eq!(slot.as_deref(), Some("value"));
    let mut slot = Some("kept".to_string());
    text("dflt", "value\n", &mut slot);
    assert_eq!(slot.as_deref(), Some("kept"));
}

#[test]
fn typed_default_comes_back() {
    for d in [0u32, 1, 256, 4294967295] {
        let mut slot = None;
        number(d, &format!("{}\n", decimal_text(u64::from(d))), &mut slot).unwrap();
        assert_eq!(slot, Some(d));
        let mut slot = None;
        number(d, "\n", &mut slot).unwrap();
        assert_eq!(slot, Some(d));
    }
}

#[test]
fn number_slots() {
    let mut slot = Some(7u32);
    assert_eq!(number(1, "nonsense\n", &mut slot), Ok(()));
    assert_eq!(slot, Some(7));
    let mut port = None;
    assert_eq!(port_number(6697, "65535\n", &mut port), Ok(()));
    assert_eq!(port, Some(65535));
    let mut port = None;
    assert_eq!(port_number(6697, "65536\n", &mut port), Err("invalid number: 65536".to_string()));
    assert_eq!(port, None);
}

#[test]
fn secret_slots() {
    let mut slot = None;
    assert_eq!(secret("ZNC password", "\r\n", &mut slot), Err("ZNC password is required".to_string()));
    assert_eq!(slot, None);
    assert_eq!(secret("ZNC password", "p w\n", &mut slot), Ok(()));
    assert_eq!(slot.as_deref(), Some("p w"));
    assert_eq!(secret("ZNC password", "other\n", &mut slot), Ok(()));
    assert_eq!(slot.as_deref(), Some("p w"));
}
