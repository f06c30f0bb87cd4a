use autoclick_rs::text::{
    chars_less, contains_chars, decimal, digit_str, hex, hex_padded, is_blank, is_whitespace,
    letter_str, occurs_at_exec, signed_decimal, starts_with_chars, str_eq, to_chars, trim, trim_nuls,
};

fn chars(s: &str) -> Vec<char> {
    s.chars().collect()
}

#[test]
fn decimal_renders_without_leading_zeros() {
    assert_eq!(decimal(0), "0");
    assert_eq!(decimal(7), "7");
    assert_eq!(decimal(10), "10");
    assert_eq!(decimal(4096), "4096");
    assert_eq!(decimal(u64::MAX), "18446744073709551615");
}

#[test]
fn hex_renders_upper_case() {
    assert_eq!(hex(0), "0");
    assert_eq!(hex(0xFF0D), "FF0D");
    assert_eq!(hex(0xabc), "ABC");
    assert_eq!(hex(u64::MAX), "FFFFFFFFFFFFFFFF");
}

#[test]
fn hex_padded_pads_to_width_only() {
    assert_eq!(hex_padded(0xE9, 4), "00E9");
    assert_eq!(hex_padded(0x0D, 2), "0D");
    assert_eq!(hex_padded(0xFF0D, 2), "FF0D");
    assert_eq!(hex_padded(0, 0), "0");
    assert_eq!(hex_padded(0x1B, 4), format!("{:04X}", 0x1B));
}

#[test]
fn digit_and_letter_strings() {
    assert_eq!(digit_str(0), "0");
    assert_eq!(digit_str(9), "9");
    assert_eq!(digit_str(10), "A");
    assert_eq!(digit_str(15), "F");
    assert_eq!(letter_str(0), "A");
    assert_eq!(letter_str(25), "Z");
}

#[test]
fn str_eq_compares_characters() {
    assert!(str_eq("x11", "x11"));
    assert!(!str_eq("x11", "X11"));
    assert!(!str_eq("x11", "x1"));
    assert!(str_eq("", ""));
}

#[test]
fn to_chars_keeps_every_character() {
    assert_eq!(to_chars("h\u{e9}llo"), vec!['h', '\u{e9}', 'l', 'l', 'o']);
    assert!(to_chars("").is_empty());
}

#[test]
fn substring_tests() {
    let hay = chars("iterm2 window");
    assert!(occurs_at_exec(&hay, &chars("term"), 1));
    assert!(!occurs_at_exec(&hay, &chars("term"), 0));
    assert!(!occurs_at_exec(&hay, &chars("window!"), 7));
    assert!(contains_chars(&hay, &chars("window")));
    assert!(contains_chars(&hay, &chars("")));
    assert!(!contains_chars(&hay, &chars("kitty")));
    assert!(!contains_chars(&chars("ab"), &chars("abc")));
    assert!(starts_with_chars(&hay, &chars("iter")));
    assert!(!starts_with_chars(&hay, &chars("term")));
}

#[test]
fn whitespace_and_blank() {
    assert!(is_whitespace(' '));
    assert!(is_whitespace('\t'));
    assert!(is_whitespace('\u{3000}'));
    assert!(!is_whitespace('a'));
    assert!(is_blank(""));
    assert!(is_blank(" \t\n"));
    assert!(!is_blank("  x "));
}

#[test]
fn trim_nuls_drops_trailing_nuls_only() {
    assert_eq!(trim_nuls("Title\0\0\0"), "Title");
    assert_eq!(trim_nuls("\0a\0"), "\0a");
    assert_eq!(trim_nuls("\0\0"), "");
    assert_eq!(trim_nuls("plain"), "plain");
}

#[test]
fn chars_less_matches_string_order() {
    let words = ["", "a", "ab", "b", "B", "\u{e9}", "zz"];
    for x in words.iter() {
        for y in words.iter() {
            assert_eq!(chars_less(&chars(x), &chars(y)), x < y, "{:?} < {:?}", x, y);
        }
    }
}

#[test]
fn trim_drops_surrounding_white_space() {
    assert_eq!(trim("firefox\n"), "firefox");
    assert_eq!(trim("  a b \t"), "a b");
    assert_eq!(trim(" \n "), "");
    assert_eq!(trim(""), "");
    assert_eq!(trim("\u{3000}x\u{a0}"), "x");
    for s in ["  x", "x  ", " x y ", "\t\n", "plain"] {
        assert_eq!(trim(s), s.trim());
    }
}

#[test]
fn signed_decimals() {
    assert_eq!(signed_decimal(0), "0");
    assert_eq!(signed_decimal(42), "42");
    assert_eq!(signed_decimal(-7), "-7");
    assert_eq!(signed_decimal(i32::MIN), i32::MIN.to_string());
}
