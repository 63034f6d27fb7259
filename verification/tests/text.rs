use zport::text::{
    all_ascii_digits, contains_str, decimal_string, find_char, parse_u16, parse_u32, rfind_char,
    rsplit_once_str, split_once_str, str_equal,
};

#[test]
fn decimal_formatting() {
    assert_eq!(decimal_string(0), "0");
    assert_eq!(decimal_string(7), "7");
    assert_eq!(decimal_string(8080), "8080");
    assert_eq!(decimal_string(65535), "65535");
    assert_eq!(decimal_string(4294967295), "4294967295");
}

#[test]
fn decimal_roundtrip_values() {
    for n in [0u16, 1, 9, 10, 22, 8080, 65535] {
        assert_eq!(parse_u16(&decimal_string(n as u32)), Some(n));
    }
    for n in [0u32, 65536, 123456789, 4294967295] {
        assert_eq!(parse_u32(&decimal_string(n)), Some(n));
    }
}

#[test]
fn unsigned_parsing_matches_std() {
    for s in ["", "+", "-", "-0", "+0", "00", "65535", "65536", "1a", " 1", "1 ", "+65535", "0000000000000000000001"] {
        assert_eq!(parse_u16(s), s.parse::<u16>().ok(), "{s:?}");
    }
    for s in ["4294967295", "4294967296", "+7", "x", "١"] {
        assert_eq!(parse_u32(s), s.parse::<u32>().ok(), "{s:?}");
    }
}

#[test]
fn splitting() {
    assert_eq!(split_once_str("a:b:c", ':'), Some(("a", "b:c")));
    assert_eq!(rsplit_once_str("a:b:c", ':'), Some(("a:b", "c")));
    assert_eq!(split_once_str("abc", ':'), None);
    assert_eq!(find_char("héllo:", ':'), Some(5));
    assert_eq!(rfind_char("::", ':'), Some(1));
}

#[test]
fn string_predicates() {
    assert!(all_ascii_digits(""));
    assert!(all_ascii_digits("0123"));
    assert!(!all_ascii_digits("12a"));
    assert!(contains_str("abc", ""));
    assert!(contains_str("a LISTENING b", "LISTENING"));
    assert!(!contains_str("LISTEN", "LISTENING"));
    assert!(str_equal("ls", "ls"));
    assert!(!str_equal("ls", "l"));
}
