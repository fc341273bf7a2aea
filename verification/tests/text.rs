use scope_protocol::text::{chars_of, is_space, reply_text, trim, trim_bounds};

#[test]
fn white_space_is_what_the_standard_library_calls_so() {
    for code in 0u32..=0x10FFFF {
        if let Some(c) = char::from_u32(code) {
            assert_eq!(is_space(c), c.is_whitespace(), "U+{:04X}", code);
        }
    }
}

#[test]
fn white_space_characters_by_name() {
    for c in [' ', '\t', '\n', '\r', '\u{0B}', '\u{0C}', '\u{85}', '\u{A0}', '\u{3000}'] {
        assert!(is_space(c));
    }
    for c in ['a', '0', ',', '-', '\u{0}', '\u{1F}', '\u{200B}', '\u{FEFF}'] {
        assert!(!is_space(c));
    }
}

#[test]
fn chars_of_gives_every_character() {
    assert_eq!(chars_of(""), Vec::<char>::new());
    assert_eq!(chars_of("a,b"), vec!['a', ',', 'b']);
    assert_eq!(chars_of("\u{e9}\u{3000}x"), vec!['\u{e9}', '\u{3000}', 'x']);
}

#[test]
fn trim_bounds_of_examples() {
    let chars: Vec<char> = "  ab c \n".chars().collect();
    assert_eq!(trim_bounds(&chars), (2, 6));
    let blank: Vec<char> = " \t ".chars().collect();
    let (start, end) = trim_bounds(&blank);
    assert_eq!(start, end);
    assert_eq!(trim_bounds(&[]), (0, 0));
    assert_eq!(trim_bounds(&['x']), (0, 1));
}

#[test]
fn trim_removes_white_space_at_both_ends_only() {
    assert_eq!(trim("  hello world \r\n"), "hello world");
    assert_eq!(trim("hello"), "hello");
    assert_eq!(trim(""), "");
    assert_eq!(trim(" \t\n"), "");
    assert_eq!(trim("\u{3000}\u{e9}t\u{e9}\u{A0}"), "\u{e9}t\u{e9}");
    assert_eq!(trim("a b"), "a b");
}

#[test]
fn trim_agrees_with_the_standard_library() {
    let samples = [
        "",
        " ",
        "x",
        " x",
        "x ",
        "\n\nx y\t\t",
        "\u{2028}a\u{2029}",
        "1,2 ,3\n",
        "\u{205F}\u{1680}\u{202F}",
        "\u{200B} a \u{200B}",
    ];
    for s in samples {
        assert_eq!(trim(s), s.trim());
    }
}

#[test]
fn trim_twice_is_trim_once() {
    for s in ["  a  ", "a", "", " \n ", "\ta b\t"] {
        assert_eq!(trim(trim(s)), trim(s));
    }
}

#[test]
fn identity_reply_is_trimmed() {
    assert_eq!(reply_text(b"ACME,SCOPE-1,SN123,1.0\n"), "ACME,SCOPE-1,SN123,1.0");
}

#[test]
fn reply_text_of_an_empty_reply_is_empty() {
    assert_eq!(reply_text(b""), "");
    assert_eq!(reply_text(b"\r\n"), "");
}

#[test]
fn reply_that_is_not_utf8_reads_as_empty() {
    assert_eq!(reply_text(b"ACME\xff\n"), "");
    assert_eq!(reply_text(b"\xc3"), "");
    assert_eq!(reply_text(b"\xed\xa0\x80"), "");
    assert_eq!(reply_text(b"\xc0\xaf"), "");
}

#[test]
fn reply_text_reads_utf8() {
    assert_eq!(reply_text("  \u{b5}V \n".as_bytes()), "\u{b5}V");
}
