use clipboard_sync::mime::parse_type_lines;
use clipboard_sync::text::{
    chars_of, contains, decode_lossy, eq_ignore_ascii_case, split_lines, starts_with, string_of,
    to_lower, trim, trim_end_nuls,
};

fn chars(text: &str) -> Vec<char> {
    chars_of(text)
}

#[test]
fn strings_and_characters_correspond() {
    assert_eq!(chars("a\u{4e2d}\n"), ['a', '\u{4e2d}', '\n']);
    assert_eq!(string_of(&['a', '\u{4e2d}', '\n']), "a\u{4e2d}\n");
    assert_eq!(string_of(&[]), "");
}

#[test]
fn only_ascii_letters_are_folded() {
    let folded = to_lower(&chars("Image/PNG \u{c9}[@Z`"));
    assert_eq!(string_of(&folded), "image/png \u{c9}[@z`");
    assert_eq!(to_lower(&folded), folded);
    assert!(eq_ignore_ascii_case(&chars("Text/HTML"), &chars("tEXT/html")));
    assert!(!eq_ignore_ascii_case(&chars("\u{c9}"), &chars("\u{e9}")));
    assert!(!eq_ignore_ascii_case(&chars("text"), &chars("text/")));
}

#[test]
fn beginnings_and_parts() {
    assert!(starts_with(&chars("image/png"), &chars("image/")));
    assert!(starts_with(&chars(""), &chars("")));
    assert!(!starts_with(&chars("imag"), &chars("image/")));
    assert!(contains(&chars("a;charset=utf-8"), &chars("charset=utf-8")));
    assert!(contains(&chars("aab"), &chars("ab")));
    assert!(contains(&chars("a"), &chars("")));
    assert!(contains(&chars(""), &chars("")));
    assert!(!contains(&chars("acb"), &chars("ab")));
    assert!(!contains(&chars(""), &chars("a")));
}

#[test]
fn trimming() {
    assert_eq!(string_of(trim(&chars("\t a b\r\n"))), "a b");
    assert_eq!(string_of(trim(&chars(" \u{3000} "))), "");
    assert_eq!(string_of(trim(&chars("\0 "))), "\0");
    assert_eq!(string_of(trim_end_nuls(&chars("\0a\0\0"))), "\0a");
    assert_eq!(string_of(trim_end_nuls(&chars("\0"))), "");
}

#[test]
fn lines_are_those_of_the_standard_library() {
    for text in ["", "\n", "a", "a\n", "a\r\nb", "a\n\r\n\nb\n", "a\rb\r\r\nc", "\r\n"] {
        let found: Vec<String> = split_lines(&chars(text)).iter().map(|line| string_of(line)).collect();
        let expected: Vec<&str> = text.lines().collect();
        assert_eq!(found, expected);
    }
}

#[test]
fn a_listing_is_read_back() {
    let names = ["TARGETS", "image/png", "text/plain;charset=utf-8", "a b"];
    assert_eq!(parse_type_lines(&format!("{}\n", names.join("\n"))), names);
}

#[test]
fn bytes_are_decoded() {
    let text = "a\u{e9}\u{4e2d}\u{1f4cb}";
    assert_eq!(decode_lossy(text.as_bytes()), text);
    assert_eq!(decode_lossy(b"a\xe4\xb8b\xff"), "a\u{fffd}b\u{fffd}");
}
