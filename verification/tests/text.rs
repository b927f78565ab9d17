use invisible_char_detector::text::{push_code_point_hex, push_decimal, str_eq, str_lt};

fn decimal(n: usize) -> String {
    let mut out = String::new();
    push_decimal(&mut out, n);
    out
}

fn hex(code: u32) -> String {
    let mut out = String::new();
    push_code_point_hex(&mut out, code);
    out
}

#[test]
fn decimal_numerals() {
    assert_eq!(decimal(0), "0");
    assert_eq!(decimal(7), "7");
    assert_eq!(decimal(10), "10");
    assert_eq!(decimal(1234567890), "1234567890");
    assert_eq!(decimal(usize::MAX), usize::MAX.to_string());
}

#[test]
fn decimal_is_appended() {
    let mut out = "n = ".to_string();
    push_decimal(&mut out, 42);
    assert_eq!(out, "n = 42");
}

#[test]
fn hexadecimal_code_points() {
    assert_eq!(hex(0), "0000");
    assert_eq!(hex(0xA), "000A");
    assert_eq!(hex(0xAD), "00AD");
    assert_eq!(hex(0xFFF), "0FFF");
    assert_eq!(hex(0x200B), "200B");
    assert_eq!(hex(0xFFFF), "FFFF");
    assert_eq!(hex(0x10000), "10000");
    assert_eq!(hex(0x10FFFD), "10FFFD");
    assert_eq!(hex(u32::MAX), "FFFFFFFF");
}

#[test]
fn hexadecimal_agrees_with_the_standard_formatting() {
    for code in (0u32..0x20000).step_by(37) {
        assert_eq!(hex(code), format!("{:04X}", code));
    }
}

#[test]
fn equality_of_strings() {
    assert!(str_eq("", ""));
    assert!(str_eq("abc", "abc"));
    assert!(str_eq("größe", "größe"));
    assert!(!str_eq("abc", "abd"));
    assert!(!str_eq("abc", "ab"));
    assert!(!str_eq("", "a"));
    assert!(!str_eq("e\u{301}", "é"));
}

#[test]
fn order_of_strings() {
    assert!(str_lt("", "a"));
    assert!(!str_lt("", ""));
    assert!(!str_lt("a", ""));
    assert!(str_lt("a", "b"));
    assert!(!str_lt("b", "a"));
    assert!(str_lt("a", "ab"));
    assert!(!str_lt("ab", "a"));
    assert!(!str_lt("abc", "abc"));
    assert!(str_lt("B", "a"));
    assert!(str_lt("z", "é"));
    assert!(str_lt("é", "中"));
    assert!(str_lt("中", "😀"));
}

#[test]
fn order_agrees_with_the_standard_order() {
    let words = ["", "a", "A", "ab", "b", "a/b", "a.b", "é", "e", "中", "😀", "\u{FFFF}", "~"];
    for a in words {
        for b in words {
            assert_eq!(str_lt(a, b), a < b, "{:?} {:?}", a, b);
            assert_eq!(str_eq(a, b), a == b, "{:?} {:?}", a, b);
        }
    }
}
