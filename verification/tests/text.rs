//! Text operations.
use course2md_desktop::text::{
    blank, contains, hex_number, number, numbered_name, opening_line, put_in_order, replace,
    stands_before, starts_with, strip_front, text_before, trim,
};

#[test]
fn white_space_is_what_unicode_says() {
    let spaces: String = (0..0x11_0000u32)
        .filter_map(char::from_u32)
        .filter(|c| c.is_whitespace())
        .collect();
    assert!(blank(&spaces));
    assert_eq!(trim(&format!("{spaces}a b{spaces}")), "a b");
    let others = (0..0x3100u32)
        .filter_map(char::from_u32)
        .filter(|c| !c.is_whitespace())
        .all(|c| !blank(&c.to_string()));
    assert!(others);
}

#[test]
fn texts_are_searched_and_replaced_from_the_left() {
    assert_eq!(replace("aaaa", "aa", "b"), "aaaa".replace("aa", "b"));
    assert_eq!(replace("xaax", "aa", "a"), "xax");
    assert!(contains("课程笔记", "程笔") && !contains("课程", "程笔"));
    assert!(contains("", "") && starts_with("a", ""));
    assert_eq!(text_before("RTX (24)", " ("), "RTX");
    assert_eq!(text_before("RTX", " ("), "RTX");
    assert_eq!(strip_front("ababc", "ab"), "c");
    assert_eq!(opening_line("a\r\nb"), "a");
    assert_eq!(opening_line("a\r"), "a\r");
    assert_eq!(opening_line(""), "");
}

#[test]
fn numbers_are_written_as_usual() {
    for n in [0, 7, 10, 409, 18446744073709551615u64] {
        assert_eq!(number(n), n.to_string());
        assert_eq!(hex_number(n), format!("{n:x}"));
    }
    assert_eq!(numbered_name("a", 1), "a");
    assert_eq!(numbered_name("a", 12), "a (12)");
}

#[test]
fn texts_are_ordered_by_their_characters() {
    assert!(stands_before("a", "b") && stands_before("a", "aa") && !stands_before("b", "a"));
    assert!(!stands_before("a", "a"));
    let mut list = Vec::new();
    for text in ["b", "a", "b", "课", "", "ab"] {
        put_in_order(&mut list, text.to_owned());
    }
    assert_eq!(list, ["", "a", "ab", "b", "课"]);
}
