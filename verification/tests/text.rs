use mansplain::text::{
    char_is_whitespace, chars_of, decode_lenient, find_newline, has_prefix, same_text, text_of,
    trimmed, trimmed_end, trimmed_start,
};

fn chars(text: &str) -> Vec<char> {
    text.chars().collect()
}

fn string(chars: &[char]) -> String {
    chars.iter().collect()
}

#[test]
fn whitespace_is_what_the_standard_library_calls_whitespace() {
    for code in 0..=0x10ffff_u32 {
        if let Some(c) = char::from_u32(code) {
            assert_eq!(char_is_whitespace(c), c.is_whitespace());
        }
    }
}

#[test]
fn chars_of_keeps_every_character() {
    assert_eq!(chars_of("a\u{e9}\n\u{1f600}"), vec!['a', '\u{e9}', '\n', '\u{1f600}']);
    assert_eq!(chars_of(""), Vec::<char>::new());
}

#[test]
fn text_of_is_the_inverse_of_chars_of() {
    for text in ["", "plain", "caf\u{e9} \u{1f600}\n", "data: [DONE]"] {
        assert_eq!(text_of(&chars_of(text)), text);
    }
}

#[test]
fn trimming_agrees_with_the_standard_library() {
    for text in [
        "",
        " ",
        "\t\r\n",
        "abc",
        "  abc",
        "abc  ",
        " a b c ",
        "\u{a0}x\u{3000}",
        "\u{2003}\u{2028}inner space kept\u{85}",
        "\r\nline\r\n",
        "x\u{200b}",
    ] {
        let given = chars(text);
        assert_eq!(string(trimmed_end(&given)), text.trim_end());
        assert_eq!(string(trimmed_start(&given)), text.trim_start());
        assert_eq!(string(trimmed(&given)), text.trim());
    }
}

#[test]
fn trimmed_end_of_an_example() {
    assert_eq!(string(trimmed_end(&chars("  data: x \r"))), "  data: x");
}

#[test]
fn prefixes_are_found() {
    assert!(has_prefix(&chars("data: x"), &chars("data: ")));
    assert!(has_prefix(&chars("data: "), &chars("data: ")));
    assert!(has_prefix(&chars("anything"), &chars("")));
    assert!(!has_prefix(&chars("data:x"), &chars("data: ")));
    assert!(!has_prefix(&chars("dat"), &chars("data: ")));
    assert!(!has_prefix(&chars(""), &chars("d")));
}

#[test]
fn same_text_compares_character_by_character() {
    assert!(same_text(&chars("[DONE]"), &chars("[DONE]")));
    assert!(same_text(&chars(""), &chars("")));
    assert!(!same_text(&chars("[DONE]"), &chars("[DONE")));
    assert!(!same_text(&chars("[DONE]"), &chars("[done]")));
}

#[test]
fn find_newline_gives_the_first_newline_from_a_position() {
    let text = chars("ab\ncd\n\nef");
    assert_eq!(find_newline(&text, 0), 2);
    assert_eq!(find_newline(&text, 2), 2);
    assert_eq!(find_newline(&text, 3), 5);
    assert_eq!(find_newline(&text, 6), 6);
    assert_eq!(find_newline(&text, 7), 9);
    assert_eq!(find_newline(&text, 9), 9);
    assert_eq!(find_newline(&chars(""), 0), 0);
}

#[test]
fn lenient_decoding_keeps_well_formed_text() {
    assert_eq!(decode_lenient("caf\u{e9} \u{1f600}".as_bytes()), "caf\u{e9} \u{1f600}");
    assert_eq!(decode_lenient(b""), "");
}

#[test]
fn lenient_decoding_replaces_what_is_ill_formed() {
    assert_eq!(decode_lenient(&[b'a', 0xff, b'b']), "a\u{fffd}b");
    assert_eq!(decode_lenient(&[0xc3]), "\u{fffd}");
    assert_eq!(decode_lenient(&[0xa9, b'z']), "\u{fffd}z");
}
