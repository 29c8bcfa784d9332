//! What is looked up before the bridge starts: tools, directories and displays.

use crate::text;
use crate::text::{chars_of, contains, starts_with, string_of};
use vstd::prelude::*;

verus! {

/// A place on the search path where a command might be: whether it is a file, and its mode
/// where it can be told.
#[derive(Clone, Copy, Debug, PartialEq, Eq, Structural)]
pub struct Candidate {
    pub is_file: bool,
    pub mode: Option<u32>,
}

/// A command with the places where it might be, in the order of the search path. There are
/// no places to speak of where there is no search path.
#[derive(Debug)]
pub struct Probe {
    pub name: String,
    pub candidates: Option<Vec<Candidate>>,
}

/// The candidate is a file that somebody may execute.
pub open spec fn is_executable(candidate: Candidate) -> bool {
    candidate.is_file && match candidate.mode {
        Some(mode) => mode & 0o111 != 0,
        None => false,
    }
}

/// One of the candidates can be executed.
pub open spec fn some_executable(list: Seq<Candidate>) -> bool {
    exists|i: int| 0 <= i < list.len() && is_executable(#[trigger] list[i])
}

/// There is a search path, and one of the candidates on it can be executed.
pub open spec fn exists_among(candidates: Option<Vec<Candidate>>) -> bool {
    match candidates {
        Some(list) => some_executable(list@),
        None => false,
    }
}

fn any_executable(list: &[Candidate]) -> (r: bool)
    ensures
        r == some_executable(list@),
{
    let mut i: usize = 0;
    while i < list.len()
        invariant
            i <= list.len(),
            forall|j: int| 0 <= j < i ==> !is_executable(#[trigger] list@[j]),
        decreases list.len() - i,
    {
        let candidate: Candidate = list[i];
        if candidate.is_file {
            if let Some(mode) = candidate.mode {
                if mode & 0o111 != 0 {
                    assert(is_executable(list@[i as int]));
                    return true;
                }
            }
        }
        i += 1;
    }
    false
}

/// Whether there is a search path and one of the candidates on it can be executed.
pub fn command_exists(candidates: &Option<Vec<Candidate>>) -> (r: bool)
    ensures
        r == exists_among(*candidates),
        r <==> candidates is Some && exists|i: int|
            0 <= i < candidates->0.len() && (#[trigger] candidates->0@[i]).is_file
                && candidates->0@[i].mode is Some && candidates->0@[i].mode->0 & 0o111u32 != 0,
{
    match candidates {
        Some(list) => any_executable(list.as_slice()),
        None => false,
    }
}

/// The commands that the bridge runs.
pub fn required_commands() -> (names: Vec<String>)
    ensures
        text::texts(names@) == seq!["xclip"@, "wl-copy"@, "wl-paste"@, "clipnotify"@],
{
    let names: Vec<String> = vec![
        "xclip".to_owned(),
        "wl-copy".to_owned(),
        "wl-paste".to_owned(),
        "clipnotify".to_owned(),
    ];
    assert(text::texts(names@) =~= seq!["xclip"@, "wl-copy"@, "wl-paste"@, "clipnotify"@]);
    names
}

/// The names of the commands that were not found, in order.
pub open spec fn missing(probes: Seq<Probe>) -> Seq<Seq<char>>
    decreases probes.len(),
{
    if probes.len() == 0 {
        seq![]
    } else if exists_among(probes.last().candidates) {
        missing(probes.drop_last())
    } else {
        missing(probes.drop_last()).push(probes.last().name@)
    }
}

/// The names of the commands that were not found, in order.
pub fn check_dependencies(probes: &[Probe]) -> (names: Vec<String>)
    ensures
        text::texts(names@) == missing(probes@),
{
    let mut names: Vec<String> = Vec::new();
    let mut i: usize = 0;
    assert(text::texts(names@) =~= missing(probes@.take(0)));
    while i < probes.len()
        invariant
            i <= probes.len(),
            text::texts(names@) == missing(probes@.take(i as int)),
        decreases probes.len() - i,
    {
        let ghost before = text::texts(names@);
        assert(probes@.take(i + 1).drop_last() =~= probes@.take(i as int));
        if !command_exists(&probes[i].candidates) {
            names.push(probes[i].name.clone());
            assert(text::texts(names@) =~= before.push(probes@[i as int].name@));
        }
        i += 1;
    }
    assert(probes@.take(i as int) =~= probes@);
    names
}

/// Nothing is missing if every command was found, and only then.
pub proof fn law_nothing_missing(probes: Seq<Probe>)
    ensures
        missing(probes).len() == 0 <==> (forall|i: int|
            0 <= i < probes.len() ==> exists_among((#[trigger] probes[i]).candidates)),
    decreases probes.len(),
{
    if probes.len() > 0 {
        let front = probes.drop_last();
        law_nothing_missing(front);
        assert(forall|i: int| 0 <= i < front.len() ==> #[trigger] front[i] == probes[i]);
        assert(forall|i: int| 0 <= i < front.len() ==> front[i] == #[trigger] probes[i]);
        assert(probes[probes.len() - 1] == probes.last());
    }
}

/// The decimal digit of a number below ten.
pub open spec fn digit(n: nat) -> char {
    ('0' as u32 + n) as char
}

/// A number in decimal digits.
pub open spec fn decimal(n: nat) -> Seq<char>
    decreases n,
{
    if n < 10 {
        seq![digit(n)]
    } else {
        decimal(n / 10).push(digit(n % 10))
    }
}

/// A number in decimal digits.
pub fn to_decimal(n: u32) -> (s: String)
    ensures
        s@ == decimal(n as nat),
    decreases n,
{
    let last: u8 = (n % 10) as u8;
    let c: char = ('0' as u8 + last) as char;
    if n < 10 {
        let mut s: String = String::new();
        s.push(c);
        assert(s@ =~= decimal(n as nat));
        s
    } else {
        let mut s: String = to_decimal(n / 10);
        s.push(c);
        s
    }
}

/// The directory for sockets and the like: what the environment says, or else the directory
/// of the user.
pub fn get_xdg_runtime_dir(variable: Option<String>, uid: u32) -> (dir: String)
    ensures
        dir@ == (match variable {
            Some(value) => value@,
            None => "/run/user/"@ + decimal(uid as nat),
        }),
{
    match variable {
        Some(value) => value,
        None => {
            let mut dir: String = "/run/user/".to_owned();
            dir.append(to_decimal(uid).as_str());
            dir
        },
    }
}

/// The environment names a display.
pub open spec fn is_named(variable: Option<String>) -> bool {
    match variable {
        Some(value) => value@.len() > 0,
        None => false,
    }
}

/// Whether the environment names a display, so that there is no need to look for one.
pub fn names_display(variable: &Option<String>) -> (r: bool)
    ensures
        r == is_named(*variable),
        r <==> variable is Some && variable->0@.len() > 0,
{
    match variable {
        Some(value) => !value.as_str().is_empty(),
        None => false,
    }
}

/// The name of a Wayland socket, which is not that of its lock file.
pub open spec fn is_wayland_socket(name: Seq<char>) -> bool {
    "wayland-"@.is_prefix_of(name) && !text::has_part(name, seq!['.'])
}

/// The first name that is one of a Wayland socket, or nothing.
pub open spec fn first_wayland_socket(names: Seq<Seq<char>>) -> Seq<char>
    decreases names.len(),
{
    if names.len() == 0 {
        seq![]
    } else if is_wayland_socket(names[0]) {
        names[0]
    } else {
        first_wayland_socket(names.skip(1))
    }
}

/// The name of an X11 socket.
pub open spec fn is_x11_socket(name: Seq<char>) -> bool {
    name.len() > 0 && name[0] == 'X'
}

/// The display behind the first name that is one of an X11 socket, or nothing.
pub open spec fn first_x11_display(names: Seq<Seq<char>>) -> Seq<char>
    decreases names.len(),
{
    if names.len() == 0 {
        seq![]
    } else if is_x11_socket(names[0]) {
        seq![':'] + names[0].skip(1)
    } else {
        first_x11_display(names.skip(1))
    }
}

fn pick_wayland_socket(names: &[String]) -> (r: String)
    ensures
        r@ == first_wayland_socket(text::texts(names@)),
{
    let prefix: Vec<char> = chars_of("wayland-");
    let dot: Vec<char> = vec!['.'];
    let ghost all = text::texts(names@);
    let mut i: usize = 0;
    assert(dot@ =~= seq!['.']);
    assert(all.skip(0) =~= all);
    while i < names.len()
        invariant
            i <= names.len(),
            all == text::texts(names@),
            prefix@ == "wayland-"@,
            dot@ == seq!['.'],
            first_wayland_socket(all) == first_wayland_socket(all.skip(i as int)),
        decreases names.len() - i,
    {
        let name: Vec<char> = chars_of(names[i].as_str());
        assert(all.skip(i as int)[0] == name@);
        if starts_with(name.as_slice(), prefix.as_slice()) && !contains(
            name.as_slice(),
            dot.as_slice(),
        ) {
            return names[i].clone();
        }
        assert(all.skip(i as int).skip(1) =~= all.skip(i + 1));
        i += 1;
    }
    String::new()
}

fn pick_x11_display(names: &[String]) -> (r: String)
    ensures
        r@ == first_x11_display(text::texts(names@)),
{
    let ghost all = text::texts(names@);
    let mut i: usize = 0;
    assert(all.skip(0) =~= all);
    while i < names.len()
        invariant
            i <= names.len(),
            all == text::texts(names@),
            first_x11_display(all) == first_x11_display(all.skip(i as int)),
        decreases names.len() - i,
    {
        let name: Vec<char> = chars_of(names[i].as_str());
        assert(all.skip(i as int)[0] == name@);
        if name.len() > 0 && name[0] == 'X' {
            let mut display: String = ":".to_owned();
            let number: String = string_of(
                vstd::slice::slice_subrange(name.as_slice(), 1, name.len()),
            );
            display.append(number.as_str());
            proof {
                reveal_strlit(":");
                assert(":"@ =~= seq![':']);
                assert(number@ =~= name@.skip(1));
            }
            return display;
        }
        assert(all.skip(i as int).skip(1) =~= all.skip(i + 1));
        i += 1;
    }
    String::new()
}

/// The Wayland display: the one that the environment names, or else the first socket in the
/// given order that is one. The result is empty where there is none, or where the sockets
/// cannot be listed.
pub fn discover_wayland_display(
    variable: Option<String>,
    sockets: Option<Vec<String>>,
) -> (display: String)
    ensures
        display@ == (if is_named(variable) {
            variable->0@
        } else {
            match sockets {
                Some(names) => first_wayland_socket(text::texts(names@)),
                None => seq![],
            }
        }),
{
    if let Some(value) = variable {
        if !value.as_str().is_empty() {
            return value;
        }
    }
    match sockets {
        Some(names) => pick_wayland_socket(names.as_slice()),
        None => String::new(),
    }
}

/// The X11 display: the one that the environment names, or else the one behind the first
/// socket in the given order that is one. The result is empty where there is none, or where
/// the sockets cannot be listed.
pub fn discover_x11_display(
    variable: Option<String>,
    sockets: Option<Vec<String>>,
) -> (display: String)
    ensures
        display@ == (if is_named(variable) {
            variable->0@
        } else {
            match sockets {
                Some(names) => first_x11_display(text::texts(names@)),
                None => seq![],
            }
        }),
{
    if let Some(value) = variable {
        if !value.as_str().is_empty() {
            return value;
        }
    }
    match sockets {
        Some(names) => pick_x11_display(names.as_slice()),
        None => String::new(),
    }
}

/// Whether both displays are known, without which the bridge does not start.
pub fn displays_found(wayland_display: &str, display: &str) -> (r: bool)
    ensures
        r == (wayland_display@.len() > 0 && display@.len() > 0),
{
    !wayland_display.is_empty() && !display.is_empty()
}

/// Where to look for the X11 authority file if the environment does not say: in the home
/// directory, where there is one.
pub fn xauthority_candidate(is_set: bool, home: Option<String>) -> (path: Option<String>)
    ensures
        match path {
            Some(path) => !is_set && home is Some && path@ == home->0@ + "/.Xauthority"@,
            None => is_set || home is None,
        },
{
    if is_set {
        return None;
    }
    match home {
        Some(home) => {
            let mut path: String = home;
            path.append("/.Xauthority");
            Some(path)
        },
        None => None,
    }
}

/// A command is there if one of the places for it is a file that its owner, its group or the
/// others may execute, and only then. Without a search path it is not there.
pub proof fn law_command_exists(candidates: Vec<Candidate>)
    ensures
        !exists_among(None),
        exists_among(Some(candidates)) <==> exists|i: int|
            0 <= i < candidates.len() && (#[trigger] candidates@[i]).is_file && (
            candidates@[i].mode matches Some(mode) && (mode & 0o100 != 0 || mode & 0o010 != 0
                || mode & 0o001 != 0)),
{
    assert forall|mode: u32|
        (#[trigger] (mode & 0o111) != 0) <==> (mode & 0o100 != 0 || mode & 0o010 != 0 || mode & 0o001
            != 0) by {
        assert((mode & 0o111 != 0) <==> (mode & 0o100 != 0 || mode & 0o010 != 0 || mode & 0o001
            != 0)) by (bit_vector);
    }
    assert forall|i: int| 0 <= i < candidates.len() implies (is_executable(
        #[trigger] candidates@[i],
    ) <==> candidates@[i].is_file && (candidates@[i].mode matches Some(mode) && (mode & 0o100 != 0
        || mode & 0o010 != 0 || mode & 0o001 != 0))) by {
        if let Some(mode) = candidates@[i].mode {
            assert((mode & 0o111 != 0) <==> (mode & 0o100 != 0 || mode & 0o010 != 0 || mode & 0o001
                != 0));
        }
    }
}

/// Commands are looked for one by one, in order: each one that is not found is named, and no
/// other.
pub proof fn law_missing_one_by_one(probes: Seq<Probe>, others: Seq<Probe>, probe: Probe)
    ensures
        missing(probes + others) == missing(probes) + missing(others),
        missing(seq![probe]) == (if exists_among(probe.candidates) {
            Seq::<Seq<char>>::empty()
        } else {
            seq![probe.name@]
        }),
        missing(Seq::<Probe>::empty()) == Seq::<Seq<char>>::empty(),
    decreases others.len(),
{
    let empty = Seq::<Probe>::empty();
    assert(missing(empty) =~= Seq::<Seq<char>>::empty());
    assert(seq![probe].drop_last() =~= empty);
    assert(seq![probe].last() == probe);
    assert(missing(seq![probe]) =~= (if exists_among(probe.candidates) {
        Seq::<Seq<char>>::empty()
    } else {
        seq![probe.name@]
    }));
    if others.len() == 0 {
        assert(probes + others =~= probes);
        assert(missing(probes) + missing(others) =~= missing(probes));
    } else {
        law_missing_one_by_one(probes, others.drop_last(), probe);
        assert((probes + others).drop_last() =~= probes + others.drop_last());
        assert((probes + others).last() == others.last());
        assert(missing(probes + others) =~= missing(probes) + missing(others));
    }
}

/// The number that a text of decimal digits stands for.
pub open spec fn value_of(digits: Seq<char>) -> int
    decreases digits.len(),
{
    if digits.len() == 0 {
        0
    } else {
        10 * value_of(digits.drop_last()) + (digits.last() as u32 - 48)
    }
}

/// A number is written in decimal digits that stand for it, without a zero in front unless it
/// is zero itself.
pub proof fn law_decimal(n: nat)
    ensures
        decimal(n).len() > 0,
        forall|i: int| 0 <= i < decimal(n).len() ==> '0' <= #[trigger] decimal(n)[i] <= '9',
        value_of(decimal(n)) == n,
        n > 0 ==> decimal(n)[0] != '0',
        n == 0 ==> decimal(n).len() == 1,
    decreases n,
{
    reveal_with_fuel(value_of, 2);
    if n >= 10 {
        law_decimal(n / 10);
        assert(decimal(n).drop_last() =~= decimal(n / 10));
    } else {
        assert(decimal(n).drop_last().len() == 0);
    }
}

/// The Wayland display that is found is the first name that begins with `wayland-` and holds no
/// dot. Where there is none, the result is empty.
pub proof fn law_first_wayland_socket(
    before: Seq<Seq<char>>,
    name: Seq<char>,
    behind: Seq<Seq<char>>,
)
    requires
        forall|k: int|
            0 <= k < before.len() ==> {
                ||| (#[trigger] before[k]).len() < 8
                ||| before[k].take(8) != "wayland-"@
                ||| before[k].contains('.')
            },
        name.len() >= 8,
        name.take(8) == "wayland-"@,
        !name.contains('.'),
    ensures
        first_wayland_socket(before + seq![name] + behind) == name,
        first_wayland_socket(before) == Seq::<char>::empty(),
    decreases before.len(),
{
    let all = before + seq![name] + behind;
    if before.len() == 0 {
        lemma_wayland_socket(name);
        assert(all[0] == name);
        assert(first_wayland_socket(before) =~= Seq::<char>::empty());
    } else {
        let rest = before.skip(1);
        lemma_wayland_socket(before[0]);
        assert(all[0] == before[0]);
        assert(all.skip(1) =~= rest + seq![name] + behind);
        assert forall|k: int| 0 <= k < rest.len() implies {
            ||| (#[trigger] rest[k]).len() < 8
            ||| rest[k].take(8) != "wayland-"@
            ||| rest[k].contains('.')
        } by {
            assert(rest[k] == before[k + 1]);
        }
        law_first_wayland_socket(rest, name, behind);
    }
}

proof fn lemma_wayland_socket(name: Seq<char>)
    ensures
        is_wayland_socket(name) <==> name.len() >= 8 && name.take(8) == "wayland-"@
            && !name.contains('.'),
{
    reveal_strlit("wayland-");
    if name.len() >= 8 {
        assert(name.subrange(0, 8) =~= name.take(8));
    }
    let dot = seq!['.'];
    if text::has_part(name, dot) {
        let i = choose|i: int| text::occurs_at(name, dot, i);
        assert(name.subrange(i, i + 1)[0] == dot[0]);
        assert(name[i] == '.');
    }
    assert forall|j: int| 0 <= j < name.len() && #[trigger] name[j] == '.' implies text::has_part(
        name,
        dot,
    ) by {
        assert(name.subrange(j, j + 1) =~= dot);
        assert(text::occurs_at(name, dot, j));
    }
}

/// The X11 display that is found is that of the first name that begins with `X`: a colon and
/// what follows the letter. Where there is none, the result is empty.
pub proof fn law_first_x11_display(before: Seq<Seq<char>>, name: Seq<char>, behind: Seq<Seq<char>>)
    requires
        forall|k: int|
            0 <= k < before.len() ==> (#[trigger] before[k]).len() == 0 || before[k][0] != 'X',
    ensures
        first_x11_display(before + seq![seq!['X'] + name] + behind) == seq![':'] + name,
        first_x11_display(before) == Seq::<char>::empty(),
    decreases before.len(),
{
    let all = before + seq![seq!['X'] + name] + behind;
    if before.len() == 0 {
        assert(all[0] == seq!['X'] + name);
        assert(all[0].skip(1) =~= name);
        assert(first_x11_display(before) =~= Seq::<char>::empty());
    } else {
        let rest = before.skip(1);
        assert(all[0] == before[0]);
        assert(all.skip(1) =~= rest + seq![seq!['X'] + name] + behind);
        assert forall|k: int| 0 <= k < rest.len() implies (#[trigger] rest[k]).len() == 0
            || rest[k][0] != 'X' by {
            assert(rest[k] == before[k + 1]);
        }
        law_first_x11_display(rest, name, behind);
    }
}

/// The environment names a display if the variable is set to something that is not empty, and
/// only then.
pub proof fn law_is_named(variable: Option<String>)
    ensures
        is_named(variable) <==> variable is Some && variable->0@.len() > 0,
{
}

} // verus!
