use clipboard_sync::fingerprint::fingerprint;
use clipboard_sync::mime::{choose_mime, find_type, parse_type_lines, parse_types, DataMode, Direction, MimeChoice};

fn types(items: &[&str]) -> Vec<String> {
    items.iter().map(|item| (*item).to_owned()).collect()
}

fn pick(items: &[&str], direction: Direction) -> Option<MimeChoice> {
    choose_mime(&types(items), direction)
}

#[test]
fn standard_image_wins_over_qt_fallback() {
    let choice = choose_mime(
        &types(&["application/x-qt-image", "image/png"]),
        Direction::XToWayland,
    )
    .unwrap();
    assert_eq!(choice.read_mime, "image/png");
    assert_eq!(choice.write_mime, "image/png");
}

#[test]
fn qt_image_is_not_treated_as_uri_list() {
    let choice =
        choose_mime(&types(&["application/x-qt-image"]), Direction::WaylandToX).unwrap();
    assert_eq!(choice.write_mime, "application/x-qt-image");
    assert!(matches!(choice.mode, DataMode::Raw));
}

#[test]
fn gif_and_unknown_images_are_supported() {
    let gif = choose_mime(&types(&["image/gif"]), Direction::XToWayland).unwrap();
    assert_eq!(gif.write_mime, "image/gif");

    let avif = choose_mime(&types(&["image/avif"]), Direction::XToWayland).unwrap();
    assert_eq!(avif.write_mime, "image/avif");
}

#[test]
fn parameterized_utf8_text_is_supported() {
    let choice = choose_mime(
        &types(&["text/plain;format=flowed;charset=UTF-8"]),
        Direction::XToWayland,
    )
    .unwrap();
    assert_eq!(choice.write_mime, "text/plain;charset=utf-8");
}

#[test]
fn whitespace_is_significant_in_text_fingerprints() {
    let compact = fingerprint("text/plain", b"ab").unwrap();
    let spaced = fingerprint("text/plain", b"a b").unwrap();
    let whitespace = fingerprint("text/plain", b" \n\t").unwrap();
    assert_ne!(compact, spaced);
    assert_ne!(spaced, whitespace);
}

#[test]
fn files_come_before_everything_else() {
    let offer = [
        "text/html",
        "text/plain",
        "application/x-qt-image",
        "image/png",
        "text/uri-list",
        "X-Special/GNOME-copied-files",
    ];
    let choice = pick(&offer, Direction::WaylandToX).unwrap();
    assert_eq!(choice.read_mime, "X-Special/GNOME-copied-files");
    assert_eq!(choice.write_mime, "text/uri-list");
    assert_eq!(choice.kind, "files");
    assert_eq!(choice.mode, DataMode::UriList);

    let choice = pick(&offer[..5], Direction::XToWayland).unwrap();
    assert_eq!(choice.read_mime, "text/uri-list");
    assert_eq!(choice.kind, "files");
}

#[test]
fn images_go_by_preference_and_not_by_place() {
    let choice = pick(&["image/avif", "image/bmp", "IMAGE/JPEG"], Direction::XToWayland).unwrap();
    assert_eq!(choice.read_mime, "IMAGE/JPEG");
    assert_eq!(choice.write_mime, "image/jpeg");
    assert_eq!(choice.kind, "image/jpeg");
    assert_eq!(choice.mode, DataMode::Raw);

    let choice = pick(&["Image/HEIC", "image/avif"], Direction::XToWayland).unwrap();
    assert_eq!(choice.read_mime, "Image/HEIC");
    assert_eq!(choice.write_mime, "image/heic");
    assert_eq!(choice.kind, "image/heic");
}

#[test]
fn every_preferred_image_keeps_its_place() {
    let order = [
        "image/png",
        "image/jpeg",
        "image/gif",
        "image/webp",
        "image/bmp",
        "image/tiff",
        "image/svg+xml",
        "image/x-xpixmap",
        "image/other",
        "application/x-qt-image",
        "text/plain;charset=utf-8",
        "text/plain",
        "UTF8_STRING",
        "COMPOUND_TEXT",
        "TEXT",
        "STRING",
        "text/plain;charset=utf-8;format=flowed",
        "text/html",
    ];
    for best in 0..order.len() {
        let mut offer: Vec<&str> = order[best..].to_vec();
        offer.reverse();
        let choice = pick(&offer, Direction::XToWayland).unwrap();
        assert_eq!(choice.read_mime, order[best]);
    }
}

#[test]
fn text_is_written_under_the_name_of_the_target() {
    let choice = pick(&["TARGETS", "STRING", "UTF8_STRING"], Direction::XToWayland).unwrap();
    assert_eq!(choice.read_mime, "UTF8_STRING");
    assert_eq!(choice.write_mime, "text/plain;charset=utf-8");
    assert_eq!(choice.kind, "text/plain");

    let choice = pick(&["text/html", "text/plain;charset=UTF-8"], Direction::WaylandToX).unwrap();
    assert_eq!(choice.read_mime, "text/plain;charset=UTF-8");
    assert_eq!(choice.write_mime, "UTF8_STRING");
    assert_eq!(choice.kind, "text/plain");
    assert_eq!(choice.mode, DataMode::Raw);
}

#[test]
fn html_is_the_last_resort() {
    let choice = pick(&["TIMESTAMP", "Text/HTML"], Direction::XToWayland).unwrap();
    assert_eq!(choice.read_mime, "Text/HTML");
    assert_eq!(choice.write_mime, "text/html");
    assert_eq!(choice.kind, "text/html");
}

#[test]
fn unknown_types_are_not_carried_over() {
    assert!(pick(&[], Direction::XToWayland).is_none());
    assert!(pick(&["TARGETS", "TIMESTAMP", "text/plain;charset=latin1"], Direction::XToWayland).is_none());
    assert!(pick(&["text/rtf;charset=utf-8", "application/image/png"], Direction::WaylandToX).is_none());
}

#[test]
fn find_type_ignores_case_and_takes_the_first() {
    let offer = types(&["a/b", "TEXT/Html", "text/html"]);
    assert_eq!(find_type(&offer, "text/html"), Some("TEXT/Html".to_owned()));
    assert_eq!(find_type(&offer, "text/htm"), None);
    assert_eq!(find_type(&[], ""), None);
}

#[test]
fn type_lists_are_trimmed_and_blank_lines_dropped() {
    assert_eq!(
        parse_types(b"TARGETS\r\n  image/png \n\n\t\ntext/html"),
        types(&["TARGETS", "image/png", "text/html"])
    );
    assert_eq!(parse_types(b""), types(&[]));
    assert_eq!(parse_type_lines("\u{3000}a b\u{a0}\n"), types(&["a b"]));
}

#[test]
fn invalid_utf8_in_a_type_list_is_replaced() {
    assert_eq!(parse_types(b"a\xffb\n"), types(&["a\u{fffd}b"]));
    assert_eq!(parse_types("\u{e9}/x\n".as_bytes()), types(&["\u{e9}/x"]));
}

#[test]
fn the_name_written_is_chosen_again_with_the_same_kind() {
    let offers = [
        "x-special/gnome-copied-files",
        "text/uri-list",
        "IMAGE/PNG",
        "Image/HEIC",
        "application/x-qt-image",
        "STRING",
        "text/plain;format=flowed;charset=UTF-8",
        "text/html",
    ];
    for offer in offers {
        let there = pick(&[offer], Direction::XToWayland).unwrap();
        let back = pick(&[&there.write_mime], Direction::WaylandToX).unwrap();
        assert_eq!(back.read_mime, there.write_mime);
        assert_eq!(back.kind, there.kind);
        assert_eq!(back.mode, there.mode);

        let there = pick(&[offer], Direction::WaylandToX).unwrap();
        let back = pick(&[&there.write_mime], Direction::XToWayland).unwrap();
        assert_eq!(back.read_mime, there.write_mime);
        assert_eq!(back.kind, there.kind);
        assert_eq!(back.mode, there.mode);
    }
}

#[test]
fn unsupported_types_do_not_count() {
    let plain = pick(&["text/html", "TEXT"], Direction::XToWayland).unwrap();
    let noisy = pick(
        &["TARGETS", "text/html", "application/json", "TEXT", "TIMESTAMP"],
        Direction::XToWayland,
    )
    .unwrap();
    assert_eq!(noisy.read_mime, plain.read_mime);
    assert_eq!(noisy.write_mime, plain.write_mime);
    assert_eq!(noisy.kind, plain.kind);
    assert_eq!(noisy.mode, plain.mode);
}
