//! Searching, trimming and joining text.

use docker_checker::text::{
    decimal_text, find_char, has_text, rfind_char, strip_leading, text_at_most, text_second_field,
    trim, trim_start,
};

#[test]
fn white_space_is_trimmed_and_nothing_else() {
    for code in 0u32..0x110000 {
        if let Some(c) = char::from_u32(code) {
            let listed = matches!(
                code,
                0x9..=0xd | 0x20 | 0x85 | 0xa0 | 0x1680 | 0x2000..=0x200a | 0x2028 | 0x2029
                    | 0x202f | 0x205f | 0x3000
            );
            assert_eq!(trim(&c.to_string()).is_empty(), listed);
        }
    }
}

#[test]
fn trimming() {
    assert_eq!(trim(" \t\u{3000}a b\u{a0}\n"), "a b");
    assert_eq!(trim_start("  x  "), "x  ");
    assert_eq!(trim(" \n"), "");
}

#[test]
fn positions_count_characters() {
    assert_eq!(find_char("äöü:x:", ':'), Some(3));
    assert_eq!(rfind_char("äöü:x:", ':'), Some(5));
    assert_eq!(find_char("abc", ':'), None);
    assert_eq!(rfind_char("", ':'), None);
}

#[test]
fn parts_of_texts() {
    assert!(has_text("<none>:<none>", "<none>"));
    assert!(has_text("abc", ""));
    assert!(!has_text("ab", "abc"));
    assert!(has_text("aab", "ab"));
    assert_eq!(strip_leading("sha256:sha256:ab", "sha256:"), "ab");
    assert_eq!(strip_leading("xy", ""), "xy");
    assert_eq!(text_second_field("a@b@c", '@'), Some("b"));
    assert_eq!(text_second_field("a@", '@'), Some(""));
    assert_eq!(text_second_field("a", '@'), None);
}

#[test]
fn order_is_that_of_the_standard_library() {
    let names = ["", "A", "Z", "a", "aa", "ab", "b", "z", "ß", "\u{ffff}", "\u{10000}"];
    for a in names {
        for b in names {
            assert_eq!(text_at_most(a, b), a <= b);
        }
    }
}

#[test]
fn decimal_notation() {
    assert_eq!(decimal_text(0), "0");
    assert_eq!(decimal_text(10), "10");
    assert_eq!(decimal_text(u64::MAX), "18446744073709551615");
}
