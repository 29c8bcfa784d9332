use clipboard_sync::fingerprint::{fingerprint, Fingerprint};
use clipboard_sync::mime::Direction;
use clipboard_sync::sync::{
    record_source, sync_wayland_to_x, sync_x_to_wayland, SyncAction, SyncState, SyncStep,
};

type Advance = fn(&mut SyncState, SyncStep) -> SyncAction;

/// A whole synchronisation; what was written, under which name and by which command.
fn run(
    state: &mut SyncState,
    advance: Advance,
    types: Option<&[u8]>,
    data: Option<&[u8]>,
    success: bool,
) -> Option<(String, Vec<u8>, String, Vec<String>)> {
    let mut written = None;
    let mut step = SyncStep::Notified;
    loop {
        step = match advance(state, step) {
            SyncAction::ReadTypes { .. } => SyncStep::TypesRead {
                types: types.map(|bytes| bytes.to_vec()),
            },
            SyncAction::ReadData { choice, .. } => SyncStep::DataRead {
                choice,
                data: data.map(|bytes| bytes.to_vec()),
            },
            SyncAction::Write {
                command,
                write_mime,
                data,
                current,
            } => {
                written = Some((write_mime, data, command.program, command.args));
                SyncStep::Written { current, success }
            }
            SyncAction::Finish => return written,
        };
    }
}

fn print(kind: &str, data: &[u8]) -> Option<Fingerprint> {
    fingerprint(kind, data)
}

#[test]
fn state_starts_empty() {
    let state = SyncState::default();
    assert_eq!(state.x11, None);
    assert_eq!(state.wayland, None);
}

#[test]
fn commands_of_the_x11_side() {
    let mut state = SyncState::default();
    match sync_x_to_wayland(&mut state, SyncStep::Notified) {
        SyncAction::ReadTypes { command } => {
            assert_eq!(command.program, "xclip");
            assert_eq!(command.args, ["-selection", "clipboard", "-t", "TARGETS", "-o"]);
        }
        other => panic!("{:?}", other),
    }
    let step = SyncStep::TypesRead {
        types: Some(b"TARGETS\nText/HTML\n".to_vec()),
    };
    match sync_x_to_wayland(&mut state, step) {
        SyncAction::ReadData { command, choice } => {
            assert_eq!(command.program, "xclip");
            assert_eq!(command.args, ["-selection", "clipboard", "-o", "-t", "Text/HTML"]);
            assert_eq!(choice.write_mime, "text/html");
        }
        other => panic!("{:?}", other),
    }
    let (mime, data, program, args) =
        run(&mut state, sync_x_to_wayland, Some(b"text/html"), Some(b"<p>"), true).unwrap();
    assert_eq!(mime, "text/html");
    assert_eq!(data, b"<p>");
    assert_eq!(program, "wl-copy");
    assert_eq!(args, ["-t", "text/html"]);
}

#[test]
fn commands_of_the_wayland_side() {
    let mut state = SyncState::default();
    match sync_wayland_to_x(&mut state, SyncStep::Notified) {
        SyncAction::ReadTypes { command } => {
            assert_eq!(command.program, "wl-paste");
            assert_eq!(command.args, ["--list-types"]);
        }
        other => panic!("{:?}", other),
    }
    let step = SyncStep::TypesRead {
        types: Some(b"image/png".to_vec()),
    };
    match sync_wayland_to_x(&mut state, step) {
        SyncAction::ReadData { command, .. } => {
            assert_eq!(command.program, "wl-paste");
            assert_eq!(command.args, ["-n", "-t", "image/png"]);
        }
        other => panic!("{:?}", other),
    }
    let (_, _, program, args) =
        run(&mut state, sync_wayland_to_x, Some(b"image/png"), Some(b"png"), true).unwrap();
    assert_eq!(program, "xclip");
    assert_eq!(args, ["-selection", "clipboard", "-i", "-t", "image/png"]);
}

#[test]
fn text_is_carried_over_with_its_white_space() {
    let mut state = SyncState::default();
    let text = b"  a\tb\n\n ";
    let (mime, data, _, _) =
        run(&mut state, sync_x_to_wayland, Some(b"UTF8_STRING\n"), Some(text), true).unwrap();
    assert_eq!(mime, "text/plain;charset=utf-8");
    assert_eq!(data, text);
    assert_eq!(state.x11, print("text/plain", text));
    assert_eq!(state.wayland, print("text/plain", text));
}

#[test]
fn what_was_written_is_not_written_back() {
    let cases: [(&[u8], &[u8]); 6] = [
        (b"x-special/gnome-copied-files\n", b"copy\n/a\nfile:///b"),
        (b"text/uri-list\n", b"/a b\r\n"),
        (b"IMAGE/PNG\nimage/bmp\n", b"\x89PNG"),
        (b"Image/HEIC\n", b"heic"),
        (b"STRING\ntext/html\n", b" text "),
        (b"text/html\n", b"<p>"),
    ];
    for (there, back) in [
        (sync_x_to_wayland as Advance, sync_wayland_to_x as Advance),
        (sync_wayland_to_x as Advance, sync_x_to_wayland as Advance),
    ] {
        for (types, data) in cases {
            let mut state = SyncState::default();
            let (mime, bytes, _, _) =
                run(&mut state, there, Some(types), Some(data), true).unwrap();
            let held = state.x11.clone();
            assert_eq!(state.wayland, held);
            let listings = [
                format!("{}\n", mime),
                format!("TARGETS\nTIMESTAMP\n{}\nSAVE_TARGETS\n", mime),
            ];
            for listing in listings {
                let echo = run(&mut state, back, Some(listing.as_bytes()), Some(&bytes), true);
                assert_eq!(echo, None);
                assert_eq!(state.x11, held);
                assert_eq!(state.wayland, held);
            }
        }
    }
}

#[test]
fn text_listed_under_all_its_names_is_not_written_back() {
    let mut state = SyncState::default();
    let (mime, bytes, _, _) =
        run(&mut state, sync_x_to_wayland, Some(b"TARGETS\nSTRING"), Some(b"text"), true).unwrap();
    assert_eq!(mime, "text/plain;charset=utf-8");
    let listing = b"text/html\nSTRING\nTEXT\nUTF8_STRING\ntext/plain\ntext/plain;charset=utf-8\n";
    assert_eq!(run(&mut state, sync_wayland_to_x, Some(listing), Some(&bytes), true), None);
}

#[test]
fn white_space_before_a_nul_comes_back_once() {
    let mut state = SyncState::default();
    let (_, bytes, _, _) =
        run(&mut state, sync_x_to_wayland, Some(b"text/uri-list"), Some(b"/a \0"), true).unwrap();
    assert_eq!(bytes, b"file:///a \n");
    let (_, bytes, _, _) =
        run(&mut state, sync_wayland_to_x, Some(b"text/uri-list"), Some(&bytes), true).unwrap();
    assert_eq!(bytes, b"file:///a\n");
    assert_eq!(
        run(&mut state, sync_x_to_wayland, Some(b"text/uri-list"), Some(&bytes), true),
        None
    );
}

#[test]
fn an_echo_gets_shorter_until_it_stops() {
    let mut state = SyncState::default();
    let (mut there, mut back) = (sync_x_to_wayland as Advance, sync_wayland_to_x as Advance);
    let mut bytes = b"/a \0 \0 \0".to_vec();
    let mut written = Vec::new();
    while let Some((mime, data, _, _)) =
        run(&mut state, there, Some(b"TARGETS\ntext/uri-list\ntext/plain"), Some(&bytes), true)
    {
        assert_eq!(mime, "text/uri-list");
        written.push(String::from_utf8(data.clone()).unwrap());
        bytes = data;
        (there, back) = (back, there);
    }
    assert_eq!(
        written,
        ["file:///a \0 \0 \n", "file:///a \0 \n", "file:///a \n", "file:///a\n"]
    );
    assert_eq!(state.x11, state.wayland);
}

#[test]
fn a_new_copy_is_always_written() {
    let mut state = SyncState::default();
    assert!(run(&mut state, sync_x_to_wayland, Some(b"TEXT"), Some(b"one"), true).is_some());
    assert!(run(&mut state, sync_wayland_to_x, Some(b"TEXT"), Some(b"two"), true).is_some());
    assert!(run(&mut state, sync_wayland_to_x, Some(b"text/html"), Some(b"two"), true).is_some());
    assert!(run(&mut state, sync_x_to_wayland, Some(b"TEXT"), Some(b"one"), true).is_some());
}

#[test]
fn a_repetition_is_quiet() {
    let mut state = SyncState::default();
    assert!(run(&mut state, sync_x_to_wayland, Some(b"TEXT"), Some(b"one"), true).is_some());
    assert_eq!(run(&mut state, sync_x_to_wayland, Some(b"TEXT"), Some(b"one"), true), None);
}

#[test]
fn a_failed_write_is_tried_at_the_next_event() {
    let mut state = SyncState::default();
    let first = run(&mut state, sync_x_to_wayland, Some(b"TEXT"), Some(b"one"), false);
    assert!(first.is_some());
    assert_eq!(state.x11, print("text/plain", b"one"));
    assert_eq!(state.wayland, None);
    let second = run(&mut state, sync_x_to_wayland, Some(b"TEXT"), Some(b"one"), true);
    assert_eq!(second, first);
    assert_eq!(state.wayland, print("text/plain", b"one"));
}

#[test]
fn a_source_without_contents_is_forgotten() {
    let inputs: [(Option<&[u8]>, Option<&[u8]>); 5] = [
        (None, None),
        (Some(b"TARGETS\n"), Some(b"x")),
        (Some(b"TEXT"), None),
        (Some(b"TEXT"), Some(b"")),
        (Some(b"text/uri-list"), Some(b"copy\n \0\n")),
    ];
    for (types, data) in inputs {
        let mut state = SyncState::default();
        run(&mut state, sync_x_to_wayland, Some(b"TEXT"), Some(b"one"), true);
        assert_eq!(run(&mut state, sync_wayland_to_x, types, data, true), None);
        assert_eq!(state.wayland, None);
        assert_eq!(state.x11, print("text/plain", b"one"));
    }
}

#[test]
fn record_source_compares_with_the_target() {
    let mut state = SyncState::default();
    let one = print("text/plain", b"one");
    let two = print("text/plain", b"two");
    assert!(!record_source(&mut state, Direction::XToWayland, None));
    assert!(record_source(&mut state, Direction::XToWayland, one.clone()));
    assert_eq!(state.x11, one);
    assert_eq!(state.wayland, None);
    assert!(!record_source(&mut state, Direction::WaylandToX, one.clone()));
    assert_eq!(state.wayland, one);
    assert!(record_source(&mut state, Direction::WaylandToX, two.clone()));
    assert_eq!(state.wayland, two);
    assert_eq!(state.x11, one);
}

#[test]
fn fingerprints_are_kind_and_hash() {
    let a = fingerprint("text/plain", b"a").unwrap();
    assert_eq!(a.kind, "text/plain");
    assert_eq!(a.hash, 0xa96faf705af16834e6c632b61e964e1f);
    assert_eq!(a.hash, xxhash_rust::xxh3::xxh3_128(b"a"));
    assert_eq!(a.short_hash(), 0xa96faf70);
    assert_eq!(a.clone(), a);
    assert_ne!(fingerprint("text/html", b"a").unwrap(), a);
    assert_ne!(fingerprint("text/plain", b"b").unwrap(), a);
    assert_eq!(fingerprint("text/plain", b""), None);
}
