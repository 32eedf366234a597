use node2text::text::{char_is_whitespace, concat_strings, join, split, trim};

fn strings(items: &[&str]) -> Vec<String> {
    items.iter().map(|s| s.to_string()).collect()
}

#[test]
fn whitespace_covers_the_unicode_property() {
    for c in ['\t', '\n', '\u{0B}', '\u{0C}', '\r', ' ', '\u{85}', '\u{A0}', '\u{1680}',
        '\u{2000}', '\u{2005}', '\u{200A}', '\u{2028}', '\u{2029}', '\u{202F}', '\u{205F}',
        '\u{3000}']
    {
        assert!(char_is_whitespace(c));
    }
    for c in ['a', '0', '\u{08}', '\u{0E}', '\u{200B}', '\u{FEFF}', '\u{180E}', '\u{2060}'] {
        assert!(!char_is_whitespace(c));
    }
}

#[test]
fn whitespace_agrees_with_std_on_every_char() {
    let mut code: u32 = 0;
    while code <= 0x10FFFF {
        if let Some(c) = char::from_u32(code) {
            assert_eq!(char_is_whitespace(c), c.is_whitespace());
        }
        code += 1;
    }
}

#[test]
fn trim_removes_both_ends() {
    assert_eq!(trim("  hello \n"), "hello");
    assert_eq!(trim("hello"), "hello");
    assert_eq!(trim("\u{3000}h\u{e9}llo w\u{f6}rld\u{2003}\t"), "h\u{e9}llo w\u{f6}rld");
}

#[test]
fn trim_keeps_interior_whitespace() {
    assert_eq!(trim(" a  b\tc "), "a  b\tc");
}

#[test]
fn trim_of_blank_is_empty() {
    assert_eq!(trim(""), "");
    assert_eq!(trim(" \t\r\n"), "");
}

#[test]
fn trim_agrees_with_std() {
    for s in ["", " ", "x", " x", "x ", " x y ", "\n\n\u{a0}x\u{a0}\n", "\u{200b} x \u{200b}"] {
        assert_eq!(trim(s), s.trim());
    }
}

#[test]
fn split_keeps_empty_pieces() {
    assert_eq!(split("a,b", ','), strings(&["a", "b"]));
    assert_eq!(split("", ','), strings(&[""]));
    assert_eq!(split(",", ','), strings(&["", ""]));
    assert_eq!(split("a,,b,", ','), strings(&["a", "", "b", ""]));
    assert_eq!(split("no separator", ','), strings(&["no separator"]));
}

#[test]
fn split_counts_characters_not_bytes() {
    assert_eq!(split("\u{e9}t\u{e9},\u{3000}x", ','), strings(&["\u{e9}t\u{e9}", "\u{3000}x"]));
}

#[test]
fn split_agrees_with_std() {
    for s in ["", ",", "a", "a,b,c", ",,a,,", "#x > p, .y"] {
        let expected: Vec<String> = s.split(',').map(|p| p.to_string()).collect();
        assert_eq!(split(s, ','), expected);
    }
}

#[test]
fn join_puts_separator_between_neighbours() {
    assert_eq!(join(&strings(&[]), ", "), "");
    assert_eq!(join(&strings(&["a"]), ", "), "a");
    assert_eq!(join(&strings(&["a", "b", "c"]), ", "), "a, b, c");
    assert_eq!(join(&strings(&["", ""]), ", "), ", ");
}

#[test]
fn concat_strings_adds_no_separator() {
    assert_eq!(concat_strings(&strings(&[])), "");
    assert_eq!(concat_strings(&strings(&["One", " ", "Two"])), "One Two");
}
