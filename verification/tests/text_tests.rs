use sitegen::front_matter::{split_front_matter, FrontMatter};
use sitegen::text::{chars_of, is_whitespace_char};

/// `text` as the body after an empty metadata block, which is trimmed.
fn trimmed(text: &str) -> String {
    match split_front_matter(&format!("------{}", text)) {
        FrontMatter::WellFormed { metadata, body } => {
            assert_eq!(metadata, "");
            body
        }
        other => panic!("expected a metadata block, found {:?}", other),
    }
}

#[test]
fn whitespace_agrees_with_std_on_every_char() {
    let mut code: u32 = 0;
    while code <= 0x10FFFF {
        if let Some(c) = char::from_u32(code) {
            assert_eq!(is_whitespace_char(c), c.is_whitespace(), "U+{:04X}", code);
        }
        code += 1;
    }
}

#[test]
fn whitespace_examples() {
    assert!(is_whitespace_char(' '));
    assert!(is_whitespace_char('\n'));
    assert!(is_whitespace_char('\t'));
    assert!(is_whitespace_char('\u{00A0}'));
    assert!(is_whitespace_char('\u{3000}'));
    assert!(!is_whitespace_char('a'));
    assert!(!is_whitespace_char('-'));
    assert!(!is_whitespace_char('\u{200B}'));
    assert!(!is_whitespace_char('\u{FEFF}'));
}

#[test]
fn chars_of_keeps_every_char_in_order() {
    assert_eq!(chars_of("a\u{e9}\u{1F600}-"), vec!['a', '\u{e9}', '\u{1F600}', '-']);
    assert_eq!(chars_of(""), Vec::<char>::new());
}

#[test]
fn trim_cuts_both_ends() {
    assert_eq!(trimmed("  \n hello world \t\n"), "hello world");
    assert_eq!(trimmed("x"), "x");
    assert_eq!(trimmed(" inner  space "), "inner  space");
}

#[test]
fn trim_of_blank_text_is_empty() {
    assert_eq!(trimmed(" \t\r\n "), "");
    assert_eq!(trimmed(""), "");
    assert_eq!(trimmed("\u{2000}\u{200A}\u{205F}"), "");
}

#[test]
fn trim_agrees_with_std() {
    let samples = [
        "",
        " ",
        "a",
        " a",
        "a ",
        "  a b  ",
        "\n\n# Title\n\ntext\n",
        "\u{00A0}x\u{2003}",
        "\u{200B}x\u{200B}",
        "\u{3000}\u{2028}y z\u{2029}\u{0085}",
        "\tone\ttwo\t",
    ];
    for sample in samples {
        assert_eq!(trimmed(sample), sample.trim(), "{:?}", sample);
    }
}
