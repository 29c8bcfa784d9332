use clipboard_sync::mime::DataMode;
use clipboard_sync::text::is_whitespace;
use clipboard_sync::uri::{normalize_uri_list, normalize_uri_text, prepare_data};

#[test]
fn gnome_file_list_is_normalized() {
    let normalized = normalize_uri_list(b"copy\n/home/user/a.txt\nfile:///tmp/b.txt\n");
    assert_eq!(normalized, b"file:///home/user/a.txt\nfile:///tmp/b.txt\n");
}

#[test]
fn verbs_blank_lines_and_nuls_go() {
    assert_eq!(normalize_uri_text("CUT\r\n\r\n  /a b \0\0\r\nhttp://x\0"), "file:///a b \nhttp://x\n");
    assert_eq!(normalize_uri_text("Copy\ncopyright"), "copyright\n");
    assert_eq!(normalize_uri_text("\0\n \n"), "");
    assert_eq!(normalize_uri_text(""), "");
}

#[test]
fn invalid_utf8_in_a_list_is_replaced() {
    assert_eq!(normalize_uri_list(b"/\xff"), "file:///\u{fffd}\n".as_bytes());
    assert_eq!(normalize_uri_list("/\u{4e2d}".as_bytes()), "file:///\u{4e2d}\n".as_bytes());
}

#[test]
fn a_normalised_list_stays_as_it_is() {
    let once = normalize_uri_text("cut\n/a\n b \nfile:///c\0");
    assert_eq!(once, "file:///a\nb\nfile:///c\n");
    assert_eq!(normalize_uri_text(&once), once);
}

#[test]
fn white_space_before_a_nul_is_only_trimmed_the_second_time() {
    let once = normalize_uri_text("a \0");
    assert_eq!(once, "a \n");
    assert_eq!(normalize_uri_text(&once), "a\n");
}

#[test]
fn raw_data_is_kept_byte_for_byte() {
    let data = b" \n\t copy\n/x\0\xff";
    assert_eq!(prepare_data(data, DataMode::Raw), data.to_vec());
    assert_eq!(prepare_data(b"/x", DataMode::UriList), b"file:///x\n".to_vec());
}

#[test]
fn white_space_is_that_of_unicode() {
    for code in 0..=0x10ffffu32 {
        if let Some(c) = char::from_u32(code) {
            assert_eq!(is_whitespace(c), c.is_whitespace(), "{:x}", code);
        }
    }
}

#[test]
fn a_list_is_treated_line_by_line() {
    let (first, rest) = ("/a", "cut\nb\n\n/c");
    let whole = format!("{}\n{}", first, rest);
    let parts = normalize_uri_text(first) + &normalize_uri_text(rest);
    assert_eq!(normalize_uri_text(&whole), parts);
    assert_eq!(parts, "file:///a\nb\nfile:///c\n");
}
