//! What holds of a whole synchronisation, and of one after another.

use crate::command::{CommandLine, Invocation};
use crate::fingerprint;
use crate::fingerprint::{Fingerprint, Print};
use crate::mime;
use crate::mime::{Choice, DataMode, Direction, MimeChoice};
use crate::mime_laws;
use crate::sync;
use crate::sync::{Action, Records, Step, SyncAction, SyncState, SyncStep};
use crate::text;
use crate::text_laws;
use crate::uri;
use crate::uri_laws;
use vstd::prelude::*;
use vstd::utf8::*;

verus! {

/// How a synchronisation ends: the records, and what was offered on the target, under
/// which name.
#[verifier::ext_equal]
pub struct Outcome {
    pub records: Records,
    pub written: Option<(Seq<char>, Seq<u8>)>,
}

/// A synchronisation from the first step to the last: the source lists `types` and yields
/// `data`, where it can be read, and offering the contents on the target succeeds or not.
/// Nothing is known of what an action out of turn would lead to.
pub open spec fn outcome(
    direction: Direction,
    records: Records,
    types: Option<Seq<u8>>,
    data: Option<Seq<u8>>,
    success: bool,
) -> Outcome {
    match sync::after(direction, records, Step::Notified) {
        (records, Action::ReadTypes { .. }) => match sync::after(
            direction,
            records,
            Step::TypesRead { types },
        ) {
            (records, Action::ReadData { choice, .. }) => match sync::after(
                direction,
                records,
                Step::DataRead { choice, data },
            ) {
                (records, Action::Write { write_mime, data, current, .. }) => match sync::after(
                    direction,
                    records,
                    Step::Written { current, success },
                ) {
                    (records, Action::Finish) => Outcome {
                        records,
                        written: Some((write_mime, data)),
                    },
                    _ => arbitrary(),
                },
                (records, Action::Finish) => Outcome { records, written: None },
                _ => arbitrary(),
            },
            (records, Action::Finish) => Outcome { records, written: None },
            _ => arbitrary(),
        },
        _ => arbitrary(),
    }
}

/// What is chosen of the types that the source lists.
pub open spec fn choice(direction: Direction, types: Option<Seq<u8>>) -> Option<Choice> {
    match types {
        Some(types) => mime::chosen(mime::listed_types(text::decoded(types)), direction),
        None => None,
    }
}

/// The fingerprint of the contents of the source, where it has contents that can be carried
/// over.
pub open spec fn contents(
    direction: Direction,
    types: Option<Seq<u8>>,
    data: Option<Seq<u8>>,
) -> Option<Print> {
    match (choice(direction, types), data) {
        (Some(choice), Some(data)) => fingerprint::print_of(
            choice.kind,
            uri::prepared(data, choice.mode),
        ),
        _ => None,
    }
}

/// The contents are offered on the target if there are any and the target is not known to
/// hold them, and only then. They are offered in full, under the name that was chosen.
pub proof fn law_written_when_needed(
    direction: Direction,
    records: Records,
    types: Option<Seq<u8>>,
    data: Option<Seq<u8>>,
    success: bool,
)
    ensures
        outcome(direction, records, types, data, success).written == (if sync::must_write(
            records,
            direction,
            contents(direction, types, data),
        ) {
            let choice = choice(direction, types)->0;
            Some((choice.write_mime, uri::prepared(data->0, choice.mode)))
        } else {
            None
        }),
{
}

/// The source is recorded as what was found there, and the target as what was offered on
/// it. Where nothing was offered, or in vain, the record of the target stays.
pub proof fn law_records(
    direction: Direction,
    records: Records,
    types: Option<Seq<u8>>,
    data: Option<Seq<u8>>,
    success: bool,
)
    ensures
        ({
            let end = outcome(direction, records, types, data, success);
            &&& end.records.source(direction) == contents(direction, types, data)
            &&& end.records.target(direction) == (if end.written is Some && success {
                contents(direction, types, data)
            } else {
                records.target(direction)
            })
        }),
{
}

/// A source that cannot be read, lists nothing that can be carried over, or is empty, is
/// forgotten. Nothing is written, and the target keeps its record.
pub proof fn law_nothing_to_carry(
    direction: Direction,
    records: Records,
    types: Option<Seq<u8>>,
    data: Option<Seq<u8>>,
    success: bool,
)
    requires
        contents(direction, types, data) is None,
    ensures
        outcome(direction, records, types, data, success) == (Outcome {
            records: records.with_source(direction, None),
            written: None,
        }),
{
}

/// Where there are contents and writing them did not fail, both clipboards are known to
/// hold the same in the end.
pub proof fn law_in_step(
    direction: Direction,
    records: Records,
    types: Option<Seq<u8>>,
    data: Option<Seq<u8>>,
)
    requires
        contents(direction, types, data) is Some,
    ensures
        ({
            let end = outcome(direction, records, types, data, true);
            end.records.x11 == end.records.wayland && end.records.x11 == contents(
                direction,
                types,
                data,
            )
        }),
{
}

/// What could not be written is written again when the source is next heard of, with the
/// same contents.
pub proof fn law_failed_write_is_tried_again(
    direction: Direction,
    records: Records,
    types: Option<Seq<u8>>,
    data: Option<Seq<u8>>,
    success: bool,
)
    ensures
        ({
            let failed = outcome(direction, records, types, data, false);
            outcome(direction, failed.records, types, data, success).written == failed.written
        }),
{
}

/// What was written is not written again when the source is next heard of, with the same
/// contents, and the records stay as they are.
pub proof fn law_repetition_is_quiet(
    direction: Direction,
    records: Records,
    types: Option<Seq<u8>>,
    data: Option<Seq<u8>>,
    success: bool,
)
    ensures
        ({
            let first = outcome(direction, records, types, data, true);
            outcome(direction, first.records, types, data, success) == (Outcome {
                records: first.records,
                written: None,
            })
        }),
{
    let first = outcome(direction, records, types, data, true);
    law_records(direction, records, types, data, true);
    let second = outcome(direction, first.records, types, data, success);
    assert(second.records =~= first.records);
}

/// Contents that were carried over are not carried back: hearing of the same contents from
/// the other side writes nothing, and the records stay as they are.
pub proof fn law_same_contents_are_not_carried_back(
    direction: Direction,
    records: Records,
    types: Option<Seq<u8>>,
    data: Option<Seq<u8>>,
    back_types: Option<Seq<u8>>,
    back_data: Option<Seq<u8>>,
    success: bool,
)
    requires
        contents(direction, types, data) is Some,
        contents(mime_laws::opposite(direction), back_types, back_data) == contents(
            direction,
            types,
            data,
        ),
    ensures
        ({
            let there = outcome(direction, records, types, data, true);
            outcome(
                mime_laws::opposite(direction),
                there.records,
                back_types,
                back_data,
                success,
            ) == (Outcome { records: there.records, written: None })
        }),
{
    let back = mime_laws::opposite(direction);
    let there = outcome(direction, records, types, data, true);
    law_in_step(direction, records, types, data);
    law_written_when_needed(back, there.records, back_types, back_data, success);
    law_records(back, there.records, back_types, back_data, success);
    let end = outcome(back, there.records, back_types, back_data, success);
    assert(end.records =~= there.records);
}

/// The bytes that were written are the same contents when they are read back as the same
/// kind, whatever else is listed with them. A list of locations has to be settled for that.
pub proof fn law_written_bytes_are_the_contents(
    direction: Direction,
    types: Option<Seq<u8>>,
    data: Seq<u8>,
    back_types: Option<Seq<u8>>,
)
    requires
        choice(direction, types) is Some,
        choice(mime_laws::opposite(direction), back_types) is Some,
        choice(mime_laws::opposite(direction), back_types)->0.kind == choice(
            direction,
            types,
        )->0.kind,
        choice(direction, types)->0.mode == DataMode::UriList ==> uri_laws::is_settled(
            text::decoded(data),
        ),
    ensures
        contents(
            mime_laws::opposite(direction),
            back_types,
            Some(uri::prepared(data, choice(direction, types)->0.mode)),
        ) == contents(direction, types, Some(data)),
{
    let mode = choice(direction, types)->0.mode;
    mime_laws::law_kind_decides_mode(
        mime::listed_types(text::decoded(types->0)),
        direction,
        mime::listed_types(text::decoded(back_types->0)),
        mime_laws::opposite(direction),
    );
    uri_laws::law_preparing_twice(data, mode);
}

/// Contents of that kind are chosen of the types that the source lists.
pub open spec fn keeps_kind(direction: Direction, types: Seq<u8>, kind: Seq<char>) -> bool {
    choice(direction, Some(types)) matches Some(choice) && choice.kind == kind
}

/// The listing of a clipboard that offers the types of that name.
pub open spec fn listing_of(names: Seq<Seq<char>>) -> Seq<u8> {
    encode_utf8(text_laws::joined(names))
}

/// The kind of what was offered on the target is chosen again, whatever is listed along with
/// the name under which it was offered: types that are not carried over, types of a worse
/// rank, and types of the same kind.
pub proof fn law_kind_is_kept(
    direction: Direction,
    types: Seq<u8>,
    names: Seq<Seq<char>>,
    i: int,
)
    requires
        choice(direction, Some(types)) is Some,
        0 <= i < names.len(),
        names[i] == choice(direction, Some(types))->0.write_mime,
        forall|j: int| 0 <= j < names.len() ==> text_laws::is_tidy(#[trigger] names[j]),
        forall|j: int|
            0 <= j < names.len() && j != i && mime::rank(#[trigger] names[j]) <= mime::rank(names[i])
                ==> mime::choice_for(names[j], mime_laws::opposite(direction)).kind == choice(
                direction,
                Some(types),
            )->0.kind,
    ensures
        keeps_kind(
            mime_laws::opposite(direction),
            listing_of(names),
            choice(direction, Some(types))->0.kind,
        ),
{
    let back = mime_laws::opposite(direction);
    mime_laws::law_listing_read_back(names);
    text_laws::law_decode_encode(text_laws::joined(names));
    mime_laws::law_choice_is_chosen_again(
        mime::listed_types(text::decoded(types)),
        direction,
        back,
    );
    mime::lemma_best(seq![names[i]]);
    mime_laws::law_kind_of_the_best(names, i, back);
}

/// The kind of what was offered on the target is chosen again where nothing is listed but the
/// name under which it was offered.
pub proof fn law_kind_is_kept_alone(direction: Direction, types: Seq<u8>)
    requires
        choice(direction, Some(types)) is Some,
    ensures
        keeps_kind(
            mime_laws::opposite(direction),
            listing_of(seq![choice(direction, Some(types))->0.write_mime]),
            choice(direction, Some(types))->0.kind,
        ),
{
    let name = choice(direction, Some(types))->0.write_mime;
    mime_laws::law_written_name_is_tidy(text::decoded(types), direction);
    law_kind_is_kept(direction, types, seq![name], 0);
}

/// The way back: the target lists `back_types`, and what was offered on it is read as it was
/// written.
pub open spec fn way_back(
    direction: Direction,
    there: Outcome,
    back_types: Seq<u8>,
    success: bool,
) -> Outcome {
    let (_, bytes) = there.written->0;
    outcome(
        mime_laws::opposite(direction),
        there.records,
        Some(back_types),
        Some(bytes),
        success,
    )
}

/// There is no echo. What was offered on the target, and is then read back as the same kind,
/// whatever is listed there, is not carried back: nothing is written, and the records stay as
/// they are. A list of locations has to be settled for that.
pub proof fn law_no_echo(
    direction: Direction,
    records: Records,
    types: Seq<u8>,
    data: Seq<u8>,
    back_types: Seq<u8>,
    success: bool,
)
    requires
        outcome(direction, records, Some(types), Some(data), true).written is Some,
        keeps_kind(
            mime_laws::opposite(direction),
            back_types,
            choice(direction, Some(types))->0.kind,
        ),
        choice(direction, Some(types))->0.mode == DataMode::UriList ==> uri_laws::is_settled(
            text::decoded(data),
        ),
    ensures
        ({
            let there = outcome(direction, records, Some(types), Some(data), true);
            way_back(direction, there, back_types, success) == (Outcome {
                records: there.records,
                written: None,
            })
        }),
{
    let there = outcome(direction, records, Some(types), Some(data), true);
    let (_, bytes) = there.written->0;
    law_written_when_needed(direction, records, Some(types), Some(data), true);
    law_written_bytes_are_the_contents(direction, Some(types), data, Some(back_types));
    law_same_contents_are_not_carried_back(
        direction,
        records,
        Some(types),
        Some(data),
        Some(back_types),
        Some(bytes),
        success,
    );
}

/// An echo fades. What was offered on the target, and is then read back as the same kind,
/// whatever is listed there, is either not carried back, or carried back as a shorter text.
pub proof fn law_echo_fades(
    direction: Direction,
    records: Records,
    types: Seq<u8>,
    data: Seq<u8>,
    back_types: Seq<u8>,
    success: bool,
)
    requires
        outcome(direction, records, Some(types), Some(data), true).written is Some,
        keeps_kind(
            mime_laws::opposite(direction),
            back_types,
            choice(direction, Some(types))->0.kind,
        ),
    ensures
        ({
            let there = outcome(direction, records, Some(types), Some(data), true);
            let (_, bytes) = there.written->0;
            way_back(direction, there, back_types, success).written matches Some((_, again))
                ==> text::decoded(again).len() < text::decoded(bytes).len()
        }),
{
    let back = mime_laws::opposite(direction);
    let list = text::decoded(data);
    let there = outcome(direction, records, Some(types), Some(data), true);
    let (_, bytes) = there.written->0;
    law_written_when_needed(direction, records, Some(types), Some(data), true);
    let mode = choice(direction, Some(types))->0.mode;
    if mode == DataMode::Raw || uri_laws::is_settled(list) {
        law_no_echo(direction, records, types, data, back_types, success);
    } else {
        let once = uri::normalized(list);
        mime_laws::law_kind_decides_mode(
            mime::listed_types(text::decoded(types)),
            direction,
            mime::listed_types(text::decoded(back_types)),
            back,
        );
        law_written_when_needed(back, there.records, Some(back_types), Some(bytes), success);
        uri_laws::law_normalizing_twice(list);
        text_laws::law_decode_encode(once);
        text_laws::law_decode_encode(uri::normalized(once));
    }
}

/// A synchronisation and ways back in turn, one for each listing, as long as each writes
/// something and succeeds.
pub open spec fn bounced(
    direction: Direction,
    there: Outcome,
    listings: Seq<Seq<u8>>,
) -> Outcome
    decreases listings.len(),
{
    if listings.len() == 0 || there.written is None {
        there
    } else {
        bounced(
            mime_laws::opposite(direction),
            way_back(direction, there, listings[0], true),
            listings.skip(1),
        )
    }
}

/// The direction of the way back with that number, after a synchronisation in the given
/// direction.
pub open spec fn turn(direction: Direction, i: int) -> Direction {
    if i % 2 == 0 {
        mime_laws::opposite(direction)
    } else {
        direction
    }
}

/// There is no loop. What was offered on a target, and is read back as the same kind each
/// time, whatever is listed with it, bounces back and forth a number of times that is bounded
/// by the length of its text, and then nothing more is written.
pub proof fn law_no_loop(
    direction: Direction,
    records: Records,
    types: Seq<u8>,
    data: Seq<u8>,
    listings: Seq<Seq<u8>>,
)
    requires
        outcome(direction, records, Some(types), Some(data), true).written matches Some((_, bytes))
            ==> text::decoded(bytes).len() < listings.len(),
        outcome(direction, records, Some(types), Some(data), true).written is Some ==> (
        forall|i: int|
            0 <= i < listings.len() ==> keeps_kind(
                turn(direction, i),
                #[trigger] listings[i],
                choice(direction, Some(types))->0.kind,
            )),
    ensures
        bounced(
            direction,
            outcome(direction, records, Some(types), Some(data), true),
            listings,
        ).written is None,
    decreases listings.len(),
{
    let back = mime_laws::opposite(direction);
    let there = outcome(direction, records, Some(types), Some(data), true);
    if let Some((_, bytes)) = there.written {
        let kind = choice(direction, Some(types))->0.kind;
        let rest = listings.skip(1);
        assert(keeps_kind(turn(direction, 0), listings[0], kind));
        law_echo_fades(direction, records, types, data, listings[0], true);
        assert forall|i: int| 0 <= i < rest.len() implies keeps_kind(
            turn(back, i),
            #[trigger] rest[i],
            choice(back, Some(listings[0]))->0.kind,
        ) by {
            assert(rest[i] == listings[i + 1]);
            assert(turn(back, i) == turn(direction, i + 1));
        }
        law_no_loop(back, there.records, listings[0], bytes, rest);
    }
}

/// No copy is missed: contents whose kind, or whose hash over all the bytes that are to be
/// written, differs from what the target is known to hold, are always offered on it, whatever
/// was written before.
pub proof fn law_no_copy_is_missed(
    direction: Direction,
    records: Records,
    types: Option<Seq<u8>>,
    data: Option<Seq<u8>>,
    success: bool,
)
    requires
        choice(direction, types) is Some,
        data is Some,
        uri::prepared(data->0, choice(direction, types)->0.mode).len() > 0,
        match (match direction {
            Direction::XToWayland => records.wayland,
            Direction::WaylandToX => records.x11,
        }) {
            Some(held) => held.kind != choice(direction, types)->0.kind || held.hash
                != fingerprint::xxh3_128_of(
                uri::prepared(data->0, choice(direction, types)->0.mode),
            ),
            None => true,
        },
    ensures
        outcome(direction, records, types, data, success).written == Some(
            (
                choice(direction, types)->0.write_mime,
                uri::prepared(data->0, choice(direction, types)->0.mode),
            ),
        ),
{
}

/// Contents of the kind and the hash that the target is known to hold are not offered on it
/// again.
pub proof fn law_known_contents_are_not_written(
    direction: Direction,
    records: Records,
    types: Option<Seq<u8>>,
    data: Option<Seq<u8>>,
    success: bool,
)
    requires
        choice(direction, types) is Some,
        data is Some,
        match (match direction {
            Direction::XToWayland => records.wayland,
            Direction::WaylandToX => records.x11,
        }) {
            Some(held) => held.kind == choice(direction, types)->0.kind && held.hash
                == fingerprint::xxh3_128_of(
                uri::prepared(data->0, choice(direction, types)->0.mode),
            ),
            None => false,
        },
    ensures
        outcome(direction, records, types, data, success).written is None,
{
}

/// A change is answered by listing the types of the clipboard that has changed.
pub proof fn law_step_notified(records: Records)
    ensures
        sync::after(Direction::XToWayland, records, Step::Notified) == (
            records,
            Action::ReadTypes {
                command: Invocation {
                    program: "xclip"@,
                    args: seq!["-selection"@, "clipboard"@, "-t"@, "TARGETS"@, "-o"@],
                },
            },
        ),
        sync::after(Direction::WaylandToX, records, Step::Notified) == (
            records,
            Action::ReadTypes {
                command: Invocation { program: "wl-paste"@, args: seq!["--list-types"@] },
            },
        ),
{
}

/// Of the types that are listed one is chosen and read, under the name in the list. Where
/// there is no list, or nothing to choose, the source is forgotten, and nothing else.
pub proof fn law_step_types(records: Records, types: Seq<u8>)
    ensures
        sync::after(Direction::XToWayland, records, Step::TypesRead { types: None }) == (
            Records { x11: None, wayland: records.wayland },
            Action::Finish,
        ),
        sync::after(Direction::WaylandToX, records, Step::TypesRead { types: None }) == (
            Records { x11: records.x11, wayland: None },
            Action::Finish,
        ),
        sync::after(Direction::XToWayland, records, Step::TypesRead { types: Some(types) }) == (
        match mime::chosen(mime::listed_types(text::decoded(types)), Direction::XToWayland) {
            None => (Records { x11: None, wayland: records.wayland }, Action::Finish),
            Some(choice) => (
                records,
                Action::ReadData {
                    command: Invocation {
                        program: "xclip"@,
                        args: seq!["-selection"@, "clipboard"@, "-o"@, "-t"@, choice.read_mime],
                    },
                    choice,
                },
            ),
        }),
        sync::after(Direction::WaylandToX, records, Step::TypesRead { types: Some(types) }) == (
        match mime::chosen(mime::listed_types(text::decoded(types)), Direction::WaylandToX) {
            None => (Records { x11: records.x11, wayland: None }, Action::Finish),
            Some(choice) => (
                records,
                Action::ReadData {
                    command: Invocation {
                        program: "wl-paste"@,
                        args: seq!["-n"@, "-t"@, choice.read_mime],
                    },
                    choice,
                },
            ),
        }),
{
}

/// What was read is recorded by its kind and the hash of all the bytes that are to be written,
/// and offered in full under the write name of the choice, unless the other clipboard is known
/// to hold just that. Where nothing was read, or nothing is left to write, the source is
/// forgotten, and nothing else.
pub proof fn law_step_data(records: Records, choice: Choice, data: Seq<u8>)
    ensures
        sync::after(Direction::XToWayland, records, Step::DataRead { choice, data: None }) == (
            Records { x11: None, wayland: records.wayland },
            Action::Finish,
        ),
        sync::after(Direction::WaylandToX, records, Step::DataRead { choice, data: None }) == (
            Records { x11: records.x11, wayland: None },
            Action::Finish,
        ),
        ({
            let out = match choice.mode {
                DataMode::Raw => data,
                DataMode::UriList => encode_utf8(uri::normalized(text::decoded(data))),
            };
            let print = Print { kind: choice.kind, hash: fingerprint::xxh3_128_of(out) };
            let there = sync::after(
                Direction::XToWayland,
                records,
                Step::DataRead { choice, data: Some(data) },
            );
            let back = sync::after(
                Direction::WaylandToX,
                records,
                Step::DataRead { choice, data: Some(data) },
            );
            if out.len() == 0 {
                &&& there == (
                    Records { x11: None, wayland: records.wayland },
                    Action::Finish,
                )
                &&& back == (Records { x11: records.x11, wayland: None }, Action::Finish)
            } else {
                &&& there == (
                    Records { x11: Some(print), wayland: records.wayland },
                    if records.wayland == Some(print) {
                        Action::Finish
                    } else {
                        Action::Write {
                            command: Invocation {
                                program: "wl-copy"@,
                                args: seq!["-t"@, choice.write_mime],
                            },
                            write_mime: choice.write_mime,
                            data: out,
                            current: print,
                        }
                    },
                )
                &&& back == (
                    Records { x11: records.x11, wayland: Some(print) },
                    if records.x11 == Some(print) {
                        Action::Finish
                    } else {
                        Action::Write {
                            command: Invocation {
                                program: "xclip"@,
                                args: seq![
                                    "-selection"@,
                                    "clipboard"@,
                                    "-i"@,
                                    "-t"@,
                                    choice.write_mime,
                                ],
                            },
                            write_mime: choice.write_mime,
                            data: out,
                            current: print,
                        }
                    },
                )
            }
        }),
{
    uri_laws::law_prepared(data, seq![]);
}

/// What was written is recorded of the clipboard that was written, and a write that failed
/// changes nothing.
pub proof fn law_step_written(records: Records, current: Print)
    ensures
        sync::after(Direction::XToWayland, records, Step::Written { current, success: true }) == (
            Records { x11: records.x11, wayland: Some(current) },
            Action::Finish,
        ),
        sync::after(Direction::WaylandToX, records, Step::Written { current, success: true }) == (
            Records { x11: Some(current), wayland: records.wayland },
            Action::Finish,
        ),
        sync::after(Direction::XToWayland, records, Step::Written { current, success: false }) == (
            records,
            Action::Finish,
        ),
        sync::after(Direction::WaylandToX, records, Step::Written { current, success: false }) == (
            records,
            Action::Finish,
        ),
{
}

/// A command that was run, and what it was fed.
pub struct Run {
    pub command: Invocation,
    pub input: Option<Seq<u8>>,
}

/// The commands that a synchronisation runs from the given step on, for what the source lists
/// and yields and how the write ends. It is followed for no more than `limit` actions.
pub open spec fn commands_run(
    direction: Direction,
    records: Records,
    step: Step,
    types: Option<Seq<u8>>,
    data: Option<Seq<u8>>,
    success: bool,
    limit: nat,
) -> Seq<Run>
    decreases limit,
{
    if limit == 0 {
        seq![]
    } else {
        let left = (limit - 1) as nat;
        let (records, action) = sync::after(direction, records, step);
        match action {
            Action::ReadTypes { command } => seq![Run { command, input: None }] + commands_run(
                direction,
                records,
                Step::TypesRead { types },
                types,
                data,
                success,
                left,
            ),
            Action::ReadData { command, choice } => seq![Run { command, input: None }]
                + commands_run(
                direction,
                records,
                Step::DataRead { choice, data },
                types,
                data,
                success,
                left,
            ),
            Action::Write { command, data: out, current, .. } => seq![
                Run { command, input: Some(out) },
            ] + commands_run(
                direction,
                records,
                Step::Written { current, success },
                types,
                data,
                success,
                left,
            ),
            Action::Finish => seq![],
        }
    }
}

/// The commands of a whole synchronisation: one lists the types, one reads the type that was
/// chosen, which is its last argument, and one is fed the contents, with the name that they are
/// written under as its last argument. Files are always written as a list of locations, and
/// plain text under the name that the target asks for.
pub proof fn law_commands_run(
    direction: Direction,
    records: Records,
    types: Option<Seq<u8>>,
    data: Option<Seq<u8>>,
    success: bool,
    limit: nat,
)
    requires
        limit >= 4,
    ensures
        ({
            let runs = commands_run(
                direction,
                records,
                Step::Notified,
                types,
                data,
                success,
                limit,
            );
            let written = outcome(direction, records, types, data, success).written;
            let chosen = choice(direction, types);
            &&& runs.len() == (if chosen is None {
                1int
            } else if written is None {
                2int
            } else {
                3int
            })
            &&& runs[0].input is None
            &&& runs.len() > 1 ==> runs[1].input is None && runs[1].command.args.last()
                == chosen->0.read_mime
            &&& runs.len() > 2 ==> {
                let name = runs[2].command.args.last();
                &&& name == chosen->0.write_mime
                &&& written == Some((name, runs[2].input->0))
                &&& runs[2].input is Some
                &&& chosen->0.kind == "files"@ ==> name == "text/uri-list"@
                &&& chosen->0.kind == "text/plain"@ ==> name == match direction {
                    Direction::XToWayland => "text/plain;charset=utf-8"@,
                    Direction::WaylandToX => "UTF8_STRING"@,
                }
                &&& chosen->0.kind != "files"@ && chosen->0.kind != "text/plain"@ ==> name
                    == chosen->0.kind
                &&& runs[2].command.program == match direction {
                    Direction::XToWayland => "wl-copy"@,
                    Direction::WaylandToX => "xclip"@,
                }
            }
        }),
{
    reveal_with_fuel(commands_run, 5);
    if let Some(types) = types {
        let offer = mime::listed_types(text::decoded(types));
        if let Some(c) = mime::chosen(offer, direction) {
            mime_laws::law_kind_of_files(offer, direction);
            mime_laws::law_direction(offer);
            mime_laws::law_write_name_of_kind(offer, direction);
        }
    }
}

/// The values that the steps and actions carry are viewed one by one, with nothing left out.
pub proof fn law_views(
    command: CommandLine,
    choice: MimeChoice,
    name: String,
    data: Vec<u8>,
    current: Fingerprint,
    success: bool,
    state: SyncState,
)
    ensures
        (SyncAction::ReadTypes { command })@ == (Action::ReadTypes { command: command@ }),
        (SyncAction::ReadData { command, choice })@ == (Action::ReadData {
            command: command@,
            choice: choice@,
        }),
        (SyncAction::Write { command, write_mime: name, data, current })@ == (Action::Write {
            command: command@,
            write_mime: name@,
            data: data@,
            current: current@,
        }),
        SyncAction::Finish@ == Action::Finish,
        SyncStep::Notified@ == Step::Notified,
        (SyncStep::TypesRead { types: None })@ == (Step::TypesRead { types: None }),
        (SyncStep::TypesRead { types: Some(data) })@ == (Step::TypesRead { types: Some(data@) }),
        (SyncStep::DataRead { choice, data: None })@ == (Step::DataRead {
            choice: choice@,
            data: None,
        }),
        (SyncStep::DataRead { choice, data: Some(data) })@ == (Step::DataRead {
            choice: choice@,
            data: Some(data@),
        }),
        (SyncStep::Written { current, success })@ == (Step::Written { current: current@, success }),
        state.x11 is None <==> state@.x11 is None,
        state.x11 matches Some(f) ==> state@.x11 == Some(Print { kind: f.kind@, hash: f.hash }),
        state.wayland is None <==> state@.wayland is None,
        state.wayland matches Some(f) ==> state@.wayland == Some(
            Print { kind: f.kind@, hash: f.hash },
        ),
{
}

/// Contents other than files are carried over byte for byte.
pub proof fn law_bytes_are_kept(
    direction: Direction,
    records: Records,
    types: Option<Seq<u8>>,
    data: Option<Seq<u8>>,
    success: bool,
)
    requires
        choice(direction, types) is Some,
        choice(direction, types)->0.kind != "files"@,
    ensures
        outcome(direction, records, types, data, success).written matches Some((_, bytes))
            ==> data == Some(bytes),
{
    mime_laws::law_kind_of_files(mime::listed_types(text::decoded(types->0)), direction);
}

/// The records with the two clipboards exchanged.
pub open spec fn exchanged(records: Records) -> Records {
    Records { x11: records.wayland, wayland: records.x11 }
}

/// The two directions are alike: with the clipboards exchanged, the records end up exchanged,
/// and the same bytes are written, if any.
pub proof fn law_directions_are_alike(
    direction: Direction,
    records: Records,
    types: Option<Seq<u8>>,
    data: Option<Seq<u8>>,
    success: bool,
)
    ensures
        ({
            let one = outcome(direction, records, types, data, success);
            let other = outcome(
                mime_laws::opposite(direction),
                exchanged(records),
                types,
                data,
                success,
            );
            &&& other.records == exchanged(one.records)
            &&& match (one.written, other.written) {
                (Some((_, bytes)), Some((_, other_bytes))) => bytes == other_bytes,
                (None, None) => true,
                _ => false,
            }
        }),
{
    if let Some(types) = types {
        mime_laws::law_direction(mime::listed_types(text::decoded(types)));
    }
}

} // verus!
