use clipboard_sync::session::{
    check_dependencies, command_exists, discover_wayland_display, discover_x11_display,
    displays_found, get_xdg_runtime_dir, names_display, required_commands, to_decimal,
    xauthority_candidate, Candidate, Probe,
};

fn names(items: &[&str]) -> Option<Vec<String>> {
    Some(items.iter().map(|item| (*item).to_owned()).collect())
}

fn some(value: &str) -> Option<String> {
    Some(value.to_owned())
}

const RUNNABLE: Candidate = Candidate {
    is_file: true,
    mode: Some(0o100755),
};

#[test]
fn a_command_is_an_executable_file_on_the_path() {
    let plain = Candidate {
        is_file: true,
        mode: Some(0o100644),
    };
    let directory = Candidate {
        is_file: false,
        mode: Some(0o040755),
    };
    let unknown = Candidate {
        is_file: true,
        mode: None,
    };
    let others_only = Candidate {
        is_file: true,
        mode: Some(0o100001),
    };
    assert!(!command_exists(&None));
    assert!(!command_exists(&Some(vec![])));
    assert!(!command_exists(&Some(vec![plain, directory, unknown])));
    assert!(command_exists(&Some(vec![plain, RUNNABLE])));
    assert!(command_exists(&Some(vec![others_only])));
}

#[test]
fn missing_commands_are_named_in_order() {
    let required = required_commands();
    assert_eq!(required, ["xclip", "wl-copy", "wl-paste", "clipnotify"]);
    let probes: Vec<Probe> = required
        .into_iter()
        .map(|name| Probe {
            candidates: if name.starts_with("wl-") {
                Some(vec![RUNNABLE])
            } else {
                None
            },
            name,
        })
        .collect();
    assert_eq!(check_dependencies(&probes), ["xclip", "clipnotify"]);
    assert!(check_dependencies(&probes[1..3]).is_empty());
    assert!(check_dependencies(&[]).is_empty());
}

#[test]
fn numbers_are_written_in_decimal() {
    assert_eq!(to_decimal(0), "0");
    assert_eq!(to_decimal(9), "9");
    assert_eq!(to_decimal(10), "10");
    assert_eq!(to_decimal(1000), "1000");
    assert_eq!(to_decimal(u32::MAX), "4294967295");
}

#[test]
fn runtime_dir_falls_back_to_the_user() {
    assert_eq!(get_xdg_runtime_dir(some("/x"), 1000), "/x");
    assert_eq!(get_xdg_runtime_dir(some(""), 1000), "");
    assert_eq!(get_xdg_runtime_dir(None, 1000), "/run/user/1000");
}

#[test]
fn wayland_display_is_named_or_found() {
    assert_eq!(discover_wayland_display(some("wayland-9"), None), "wayland-9");
    assert_eq!(discover_wayland_display(some("wayland-9"), names(&["wayland-0"])), "wayland-9");
    let sockets = ["bus", "wayland-1.lock", "wayland-1", "wayland-0"];
    assert_eq!(discover_wayland_display(None, names(&sockets)), "wayland-1");
    assert_eq!(discover_wayland_display(some(""), names(&sockets)), "wayland-1");
    assert_eq!(discover_wayland_display(None, names(&["xwayland-0", "wayland"])), "");
    assert_eq!(discover_wayland_display(None, None), "");
}

#[test]
fn x11_display_is_named_or_found() {
    assert_eq!(discover_x11_display(some(":7"), names(&["X0"])), ":7");
    assert_eq!(discover_x11_display(some(""), names(&["lock", "X1", "X0"])), ":1");
    assert_eq!(discover_x11_display(None, names(&["X"])), ":");
    assert_eq!(discover_x11_display(None, names(&["x0"])), "");
    assert_eq!(discover_x11_display(None, None), "");
}

#[test]
fn a_display_is_named_by_a_value_that_is_not_empty() {
    assert!(names_display(&some(":0")));
    assert!(!names_display(&some("")));
    assert!(!names_display(&None));
}

#[test]
fn both_displays_are_needed() {
    assert!(displays_found("wayland-0", ":0"));
    assert!(!displays_found("", ":0"));
    assert!(!displays_found("wayland-0", ""));
}

#[test]
fn authority_file_is_looked_for_at_home() {
    assert_eq!(xauthority_candidate(false, some("/home/u")), some("/home/u/.Xauthority"));
    assert_eq!(xauthority_candidate(true, some("/home/u")), None);
    assert_eq!(xauthority_candidate(false, None), None);
}
