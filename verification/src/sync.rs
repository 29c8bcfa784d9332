//! One synchronisation of the two clipboards, step by step.

use crate::command;
use crate::command::{list_command, read_command, write_command, CommandLine, Invocation};
use crate::fingerprint;
use crate::fingerprint::{fingerprint, Fingerprint, Print};
use crate::mime;
use crate::mime::{choose_mime, parse_types, Choice, Direction, MimeChoice};
use crate::text;
use crate::uri;
use crate::uri::prepare_data;
use vstd::prelude::*;

verus! {

/// What each clipboard is known to hold.
#[derive(Debug)]
pub struct SyncState {
    pub x11: Option<Fingerprint>,
    pub wayland: Option<Fingerprint>,
}

/// A `SyncState` with its fingerprints as plain values.
#[verifier::ext_equal]
pub struct Records {
    pub x11: Option<Print>,
    pub wayland: Option<Print>,
}

impl View for SyncState {
    type V = Records;

    open spec fn view(&self) -> Records {
        Records {
            x11: fingerprint::print_view(self.x11),
            wayland: fingerprint::print_view(self.wayland),
        }
    }
}

impl Default for SyncState {
    fn default() -> (r: SyncState)
        ensures
            r@ == (Records { x11: None, wayland: None }),
    {
        SyncState { x11: None, wayland: None }
    }
}

impl Records {
    /// What the clipboard is known to hold that is read.
    pub open spec fn source(self, direction: Direction) -> Option<Print> {
        match direction {
            Direction::XToWayland => self.x11,
            Direction::WaylandToX => self.wayland,
        }
    }

    /// What the clipboard is known to hold that is written.
    pub open spec fn target(self, direction: Direction) -> Option<Print> {
        match direction {
            Direction::XToWayland => self.wayland,
            Direction::WaylandToX => self.x11,
        }
    }

    /// The records with that of the source replaced.
    pub open spec fn with_source(self, direction: Direction, print: Option<Print>) -> Records {
        match direction {
            Direction::XToWayland => Records { x11: print, ..self },
            Direction::WaylandToX => Records { wayland: print, ..self },
        }
    }

    /// The records with that of the target replaced.
    pub open spec fn with_target(self, direction: Direction, print: Option<Print>) -> Records {
        match direction {
            Direction::XToWayland => Records { wayland: print, ..self },
            Direction::WaylandToX => Records { x11: print, ..self },
        }
    }
}

/// What has just happened.
#[derive(Debug)]
pub enum SyncStep {
    /// The source has changed.
    Notified,
    /// The list of types was read, or could not be.
    TypesRead { types: Option<Vec<u8>> },
    /// The contents were read as chosen, or could not be.
    DataRead { choice: MimeChoice, data: Option<Vec<u8>> },
    /// The contents were offered on the target, or could not be.
    Written { current: Fingerprint, success: bool },
}

/// What is to be done next.
#[derive(Debug)]
pub enum SyncAction {
    /// Run the command and hand its output back as `TypesRead`.
    ReadTypes { command: CommandLine },
    /// Run the command and hand its output back as `DataRead`, with the choice.
    ReadData { command: CommandLine, choice: MimeChoice },
    /// Feed the data to the command and hand the result back as `Written`, with the
    /// fingerprint.
    Write { command: CommandLine, write_mime: String, data: Vec<u8>, current: Fingerprint },
    /// Nothing is left to do.
    Finish,
}

/// A `SyncStep` as a plain value.
pub enum Step {
    Notified,
    TypesRead { types: Option<Seq<u8>> },
    DataRead { choice: Choice, data: Option<Seq<u8>> },
    Written { current: Print, success: bool },
}

/// A `SyncAction` as a plain value.
#[verifier::ext_equal]
pub enum Action {
    ReadTypes { command: Invocation },
    ReadData { command: Invocation, choice: Choice },
    Write { command: Invocation, write_mime: Seq<char>, data: Seq<u8>, current: Print },
    Finish,
}

/// The view of bytes that may be missing.
pub open spec fn bytes_view(data: Option<Vec<u8>>) -> Option<Seq<u8>> {
    match data {
        Some(data) => Some(data@),
        None => None,
    }
}

impl View for SyncStep {
    type V = Step;

    open spec fn view(&self) -> Step {
        match *self {
            SyncStep::Notified => Step::Notified,
            SyncStep::TypesRead { types } => Step::TypesRead { types: bytes_view(types) },
            SyncStep::DataRead { choice, data } => Step::DataRead {
                choice: choice@,
                data: bytes_view(data),
            },
            SyncStep::Written { current, success } => Step::Written { current: current@, success },
        }
    }
}

impl View for SyncAction {
    type V = Action;

    open spec fn view(&self) -> Action {
        match *self {
            SyncAction::ReadTypes { command } => Action::ReadTypes { command: command@ },
            SyncAction::ReadData { command, choice } => Action::ReadData {
                command: command@,
                choice: choice@,
            },
            SyncAction::Write { command, write_mime, data, current } => Action::Write {
                command: command@,
                write_mime: write_mime@,
                data: data@,
                current: current@,
            },
            SyncAction::Finish => Action::Finish,
        }
    }
}

/// Contents with this fingerprint have to be carried over: there are contents, and the
/// target is not known to hold them.
pub open spec fn must_write(
    records: Records,
    direction: Direction,
    current: Option<Print>,
) -> bool {
    current is Some && records.target(direction) != current
}

/// What a step makes of the records, and what is to be done next.
pub open spec fn after(direction: Direction, records: Records, step: Step) -> (Records, Action) {
    match step {
        Step::Notified => (records, Action::ReadTypes { command: command::listing(direction) }),
        Step::TypesRead { types: None } => (records.with_source(direction, None), Action::Finish),
        Step::TypesRead { types: Some(types) } => match mime::chosen(
            mime::listed_types(text::decoded(types)),
            direction,
        ) {
            None => (records.with_source(direction, None), Action::Finish),
            Some(choice) => (
                records,
                Action::ReadData {
                    command: command::reading(direction, choice.read_mime),
                    choice,
                },
            ),
        },
        Step::DataRead { choice, data: None } => (
            records.with_source(direction, None),
            Action::Finish,
        ),
        Step::DataRead { choice, data: Some(data) } => {
            let out = uri::prepared(data, choice.mode);
            let current = fingerprint::print_of(choice.kind, out);
            (
                records.with_source(direction, current),
                if must_write(records, direction, current) {
                    Action::Write {
                        command: command::writing(direction, choice.write_mime),
                        write_mime: choice.write_mime,
                        data: out,
                        current: current->0,
                    }
                } else {
                    Action::Finish
                },
            )
        },
        Step::Written { current, success } => (
            if success {
                records.with_target(direction, Some(current))
            } else {
                records
            },
            Action::Finish,
        ),
    }
}

fn set_source(state: &mut SyncState, direction: Direction, print: Option<Fingerprint>)
    ensures
        final(state)@ == old(state)@.with_source(direction, fingerprint::print_view(print)),
        direction == Direction::XToWayland ==> final(state).x11 == print && final(state).wayland
            == old(state).wayland,
        direction == Direction::WaylandToX ==> final(state).wayland == print && final(state).x11
            == old(state).x11,
{
    match direction {
        Direction::XToWayland => {
            state.x11 = print;
        },
        Direction::WaylandToX => {
            state.wayland = print;
        },
    }
}

fn set_target(state: &mut SyncState, direction: Direction, print: Option<Fingerprint>)
    ensures
        final(state)@ == old(state)@.with_target(direction, fingerprint::print_view(print)),
{
    match direction {
        Direction::XToWayland => {
            state.wayland = print;
        },
        Direction::WaylandToX => {
            state.x11 = print;
        },
    }
}

/// Records what the source holds now, and says whether it has to be carried over.
pub fn record_source(
    state: &mut SyncState,
    direction: Direction,
    current: Option<Fingerprint>,
) -> (r: bool)
    ensures
        final(state)@ == old(state)@.with_source(direction, fingerprint::print_view(current)),
        r == must_write(old(state)@, direction, fingerprint::print_view(current)),
        direction == Direction::XToWayland ==> final(state).x11 == current && final(state).wayland
            == old(state).wayland,
        direction == Direction::WaylandToX ==> final(state).wayland == current && final(state).x11
            == old(state).x11,
        r <==> current is Some && match (match direction {
            Direction::XToWayland => old(state).wayland,
            Direction::WaylandToX => old(state).x11,
        }) {
            Some(held) => held.kind@ != current->0.kind@ || held.hash != current->0.hash,
            None => true,
        },
{
    let target: &Option<Fingerprint> = match direction {
        Direction::XToWayland => &state.wayland,
        Direction::WaylandToX => &state.x11,
    };
    let needed: bool = match (target, &current) {
        (_, None) => false,
        (None, Some(_)) => true,
        (Some(held), Some(current)) => !(*held == *current),
    };
    set_source(state, direction, current);
    needed
}

fn advance(state: &mut SyncState, direction: Direction, step: SyncStep) -> (action: SyncAction)
    ensures
        (final(state)@, action@) == after(direction, old(state)@, step@),
{
    match step {
        SyncStep::Notified => SyncAction::ReadTypes { command: list_command(direction) },
        SyncStep::TypesRead { types: None } => {
            set_source(state, direction, None);
            SyncAction::Finish
        },
        SyncStep::TypesRead { types: Some(raw) } => {
            let types: Vec<String> = parse_types(raw.as_slice());
            match choose_mime(types.as_slice(), direction) {
                None => {
                    set_source(state, direction, None);
                    SyncAction::Finish
                },
                Some(choice) => SyncAction::ReadData {
                    command: read_command(direction, choice.read_mime.as_str()),
                    choice,
                },
            }
        },
        SyncStep::DataRead { choice: _, data: None } => {
            set_source(state, direction, None);
            SyncAction::Finish
        },
        SyncStep::DataRead { choice, data: Some(source) } => {
            let data: Vec<u8> = prepare_data(source.as_slice(), choice.mode);
            match fingerprint(choice.kind.as_str(), data.as_slice()) {
                None => {
                    set_source(state, direction, None);
                    SyncAction::Finish
                },
                Some(current) => {
                    if record_source(state, direction, Some(current.clone())) {
                        SyncAction::Write {
                            command: write_command(direction, choice.write_mime.as_str()),
                            write_mime: choice.write_mime,
                            data,
                            current,
                        }
                    } else {
                        SyncAction::Finish
                    }
                },
            }
        },
        SyncStep::Written { current, success } => {
            if success {
                set_target(state, direction, Some(current));
            }
            SyncAction::Finish
        },
    }
}

/// Carries the X11 clipboard over to Wayland, one step at a time: takes what has just
/// happened and says what is to be done next.
pub fn sync_x_to_wayland(state: &mut SyncState, step: SyncStep) -> (action: SyncAction)
    ensures
        (final(state)@, action@) == after(Direction::XToWayland, old(state)@, step@),
{
    advance(state, Direction::XToWayland, step)
}

/// Carries the Wayland clipboard over to X11, one step at a time: takes what has just
/// happened and says what is to be done next.
pub fn sync_wayland_to_x(state: &mut SyncState, step: SyncStep) -> (action: SyncAction)
    ensures
        (final(state)@, action@) == after(Direction::WaylandToX, old(state)@, step@),
{
    advance(state, Direction::WaylandToX, step)
}

} // verus!
