use tls_scanner::text::{
    ascii_uppercase, bool_name, contains, decimal, hex4, hex_lower, indent, join, starts_with,
};

#[test]
fn bytes_are_written_in_lowercase_hex() {
    assert_eq!(hex_lower(&[]), "");
    assert_eq!(hex_lower(&[0x00, 0x0f, 0xa5, 0xff]), "000fa5ff");
}

#[test]
fn codes_have_four_digits() {
    assert_eq!(hex4(0), "0000");
    assert_eq!(hex4(0xc02f), "c02f");
    assert_eq!(hex4(0x1301), "1301");
}

#[test]
fn numbers_are_written_in_decimal() {
    assert_eq!(decimal(0), "0");
    assert_eq!(decimal(10), "10");
    assert_eq!(decimal(4294967295), "4294967295");
}

#[test]
fn truth_has_names() {
    assert_eq!(bool_name(true), "true");
    assert_eq!(bool_name(false), "false");
}

#[test]
fn texts_are_joined() {
    assert_eq!(join(&vec![], " "), "");
    assert_eq!(join(&vec!["a".to_string()], " "), "a");
    assert_eq!(join(&vec!["a".to_string(), "b".to_string(), "".to_string()], ", "), "a, b, ");
}

#[test]
fn texts_are_searched() {
    assert!(contains("TLS_PSK_WITH", "_PSK"));
    assert!(!contains("TLS_PS", "_PSK"));
    assert!(contains("x", ""));
    assert!(starts_with("ECDHE", "ECDH"));
    assert!(!starts_with("DHE", "ECDH"));
}

#[test]
fn only_ascii_letters_are_raised() {
    assert_eq!(ascii_uppercase("gcm-8 \u{e4}"), "GCM-8 \u{e4}");
}

#[test]
fn lines_are_indented() {
    let mut w = indent("   ");
    w.write_str("a\n\nb\n");
    assert_eq!(w.out, "   a\n\n   b\n");
    assert!(w.at_line_start);
}

#[test]
fn pieces_do_not_matter() {
    let mut whole = indent("> ");
    whole.write_str("one\ntwo\n\nthree");
    let mut pieces = indent("> ");
    pieces.write_str("on");
    pieces.write_str("e\ntw");
    pieces.write_str("o\n");
    pieces.write_str("\nthr");
    pieces.write_str("");
    pieces.write_str("ee");
    assert_eq!(whole.out, "> one\n> two\n\n> three");
    assert_eq!(pieces.out, whole.out);
    assert!(!pieces.at_line_start);
}
