use ssh_serial_bridge::text::{
    dec_text, find_text, has_nul, join_text, lines_of, parse_i32, parse_number, push_hex, push_hex4, push_hex8,
    push_int, same, split_text, stored_text, trim_text,
};
use ssh_serial_bridge::text_map::TextMap;

#[test]
fn splitting_and_joining() {
    assert_eq!(split_text("a,b,,c", ','), vec!["a", "b", "", "c"]);
    assert_eq!(split_text("", ','), vec![""]);
    let parts = split_text("x\ny", '\n');
    assert_eq!(join_text(&parts, "--"), "x--y");
    assert_eq!(join_text(&Vec::new(), "--"), "");
}

#[test]
fn lines_as_in_text_files() {
    assert_eq!(lines_of("a\r\nb\n\nc\r"), vec!["a", "b", "", "c\r"]);
    assert_eq!(lines_of("a\n"), vec!["a"]);
    assert!(lines_of("").is_empty());
}

#[test]
fn numbers_as_text() {
    assert_eq!(dec_text(0), "0");
    assert_eq!(dec_text(18446744073709551615), "18446744073709551615");
    let mut s = String::new();
    push_int(&mut s, -2147483648);
    push_hex4(&mut s, 0x0a4f);
    push_hex8(&mut s, 0xdeadbeef);
    push_hex(&mut s, 0x102);
    assert_eq!(s, "-21474836480A4Fdeadbeef102");
}

#[test]
fn text_as_numbers() {
    assert_eq!(parse_number("115200", 0xffff_ffff), Some(115200));
    assert_eq!(parse_number("+7", 255), Some(7));
    assert_eq!(parse_number("256", 255), None);
    assert_eq!(parse_number("00255", 255), Some(255));
    assert_eq!(parse_number("", 255), None);
    assert_eq!(parse_number("+", 255), None);
    assert_eq!(parse_number("1 ", 255), None);
    assert_eq!(parse_number("18446744073709551615", u64::MAX), Some(u64::MAX));
    assert_eq!(parse_number("18446744073709551616", u64::MAX), None);
    assert_eq!(parse_i32("-2147483648"), Some(i32::MIN));
    assert_eq!(parse_i32("2147483648"), None);
    assert_eq!(parse_i32("-"), None);
    assert_eq!(parse_i32("+17"), Some(17));
}

#[test]
fn trimming_and_finding() {
    assert_eq!(trim_text(" \u{3000}a b\t\n"), "a b");
    assert_eq!(trim_text("   "), "");
    let s: Vec<char> = "xxport".chars().collect();
    let p: Vec<char> = "port".chars().collect();
    assert_eq!(find_text(&s, &p, 0), Some(2));
    assert_eq!(find_text(&s, &p, 3), None);
    assert!(same("abc", "abc"));
    assert!(!same("abc", "abd"));
    assert!(has_nul("a\0"));
    assert!(!has_nul("a"));
}

#[test]
fn bytes_from_storage() {
    assert_eq!(stored_text(b"abc\0\0"), Some("abc".to_string()));
    assert_eq!(stored_text(b"\0"), Some(String::new()));
    assert_eq!(stored_text("h\u{e9}\0".as_bytes()), Some("h\u{e9}".to_string()));
    assert_eq!(stored_text(&[0xff, 0x00]), None);
}

#[test]
fn the_last_value_of_a_key_counts() {
    let mut m = TextMap::new();
    assert_eq!(m.get("a"), None);
    m.insert("a".to_string(), "1".to_string());
    m.insert("b".to_string(), "2".to_string());
    m.insert("a".to_string(), "3".to_string());
    assert_eq!(m.get("a"), Some("3".to_string()));
    assert_eq!(m.get("b"), Some("2".to_string()));
}
