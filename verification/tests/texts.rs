use abcb::order::{comes_first, sort_names};
use abcb::text::{
    decimal_text, find, has_text, join, lines_of, pad_end, same_text, trim, trim_end_matches,
};

fn strings(texts: &[&str]) -> Vec<String> {
    texts.iter().map(|t| t.to_string()).collect()
}

#[test]
fn trimming_agrees_with_str() {
    for t in ["", " ", "a", " a b ", "\u{a0}x\u{3000}", "\n\u{b}\r\t", "\u{85}y\u{2029}", "\u{200b}z"] {
        assert_eq!(trim(t), t.trim(), "{t:?}");
    }
    assert_eq!(trim_end_matches("a//b//", '/'), "a//b");
    assert_eq!(trim_end_matches("///", '/'), "");
}

#[test]
fn white_space_agrees_with_char() {
    for code in 0u32..0x11_0000 {
        if let Some(c) = char::from_u32(code) {
            assert_eq!(abcb::text::is_white(c), c.is_whitespace(), "{code:x}");
        }
    }
}

#[test]
fn searching_agrees_with_str() {
    assert_eq!(find("héllo", "l"), Some(2));
    assert_eq!(find("aaab", "ab"), Some(2));
    assert_eq!(find("", ""), Some(0));
    assert_eq!(find("abc", ""), Some(0));
    assert_eq!(find("abc", "d"), None);
    assert_eq!(find("a", "ab"), None);
    assert!(has_text("buy milk", "milk"));
    assert!(has_text("x", ""));
    assert!(!has_text("", "x"));
    assert!(same_text("é", "é"));
    assert!(!same_text("a", "A"));
}

#[test]
fn lines_agree_with_str() {
    for t in ["", "\n", "a", "a\n", "a\r\nb", "a\rb\n\n c\r", "\r\n", "x\n\r\n\ry\r\r\n"] {
        let expected: Vec<String> = t.lines().map(|l| l.to_string()).collect();
        assert_eq!(lines_of(t), expected, "{t:?}");
    }
}

#[test]
fn joining_padding_and_decimals() {
    assert_eq!(join(&strings(&["a", "", "b"]), ", "), "a, , b");
    assert_eq!(join(&vec![], ", "), "");
    assert_eq!(pad_end("say-hi", 14), "say-hi        ");
    assert_eq!(pad_end("a-name-that-is-longer", 14), "a-name-that-is-longer");
    assert_eq!(pad_end("é", 3), "é  ");
    assert_eq!(decimal_text(0), "0");
    assert_eq!(decimal_text(1070), "1070");
    assert_eq!(decimal_text(u64::MAX), u64::MAX.to_string());
}

#[test]
fn names_are_sorted_as_std_sorts_them() {
    let names = strings(&["b", "a", "", "ab", "a", "Z", "é", "\u{10000}", "\u{ffff}"]);
    let mut expected = names.clone();
    expected.sort();
    assert_eq!(sort_names(names), expected);
    assert!(comes_first("a", "ab"));
    assert!(comes_first("a", "a"));
    assert!(!comes_first("b", "ab"));
}
