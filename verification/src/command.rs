//! The command lines of the clipboard tools.

use crate::mime::Direction;
use crate::text;
use vstd::prelude::*;

verus! {

/// A program with its arguments.
#[derive(Debug)]
pub struct CommandLine {
    pub program: String,
    pub args: Vec<String>,
}

/// A `CommandLine` with its strings as sequences of characters.
#[verifier::ext_equal]
pub struct Invocation {
    pub program: Seq<char>,
    pub args: Seq<Seq<char>>,
}

impl View for CommandLine {
    type V = Invocation;

    open spec fn view(&self) -> Invocation {
        Invocation { program: self.program@, args: text::texts(self.args@) }
    }
}

/// Lists the types that the source offers.
pub open spec fn listing(direction: Direction) -> Invocation {
    match direction {
        Direction::XToWayland => Invocation {
            program: "xclip"@,
            args: seq!["-selection"@, "clipboard"@, "-t"@, "TARGETS"@, "-o"@],
        },
        Direction::WaylandToX => Invocation { program: "wl-paste"@, args: seq!["--list-types"@] },
    }
}

/// Reads what the source offers as `mime`.
pub open spec fn reading(direction: Direction, mime: Seq<char>) -> Invocation {
    match direction {
        Direction::XToWayland => Invocation {
            program: "xclip"@,
            args: seq!["-selection"@, "clipboard"@, "-o"@, "-t"@, mime],
        },
        Direction::WaylandToX => Invocation {
            program: "wl-paste"@,
            args: seq!["-n"@, "-t"@, mime],
        },
    }
}

/// Offers data as `mime` on the other clipboard.
pub open spec fn writing(direction: Direction, mime: Seq<char>) -> Invocation {
    match direction {
        Direction::XToWayland => Invocation { program: "wl-copy"@, args: seq!["-t"@, mime] },
        Direction::WaylandToX => Invocation {
            program: "xclip"@,
            args: seq!["-selection"@, "clipboard"@, "-i"@, "-t"@, mime],
        },
    }
}

/// The command that lists the types that the source offers.
pub fn list_command(direction: Direction) -> (command: CommandLine)
    ensures
        command@ == listing(direction),
        direction == Direction::XToWayland ==> command.program@ == "xclip"@ && text::texts(
            command.args@,
        ) == seq!["-selection"@, "clipboard"@, "-t"@, "TARGETS"@, "-o"@],
        direction == Direction::WaylandToX ==> command.program@ == "wl-paste"@ && text::texts(
            command.args@,
        ) == seq!["--list-types"@],
{
    let command: CommandLine = match direction {
        Direction::XToWayland => CommandLine {
            program: "xclip".to_owned(),
            args: vec![
                "-selection".to_owned(),
                "clipboard".to_owned(),
                "-t".to_owned(),
                "TARGETS".to_owned(),
                "-o".to_owned(),
            ],
        },
        Direction::WaylandToX => CommandLine {
            program: "wl-paste".to_owned(),
            args: vec!["--list-types".to_owned()],
        },
    };
    assert(command@.args =~= listing(direction).args);
    command
}

/// The command that reads what the source offers as `mime`.
pub fn read_command(direction: Direction, mime: &str) -> (command: CommandLine)
    ensures
        command@ == reading(direction, mime@),
        direction == Direction::XToWayland ==> command.program@ == "xclip"@ && text::texts(
            command.args@,
        ) == seq!["-selection"@, "clipboard"@, "-o"@, "-t"@, mime@],
        direction == Direction::WaylandToX ==> command.program@ == "wl-paste"@ && text::texts(
            command.args@,
        ) == seq!["-n"@, "-t"@, mime@],
{
    let command: CommandLine = match direction {
        Direction::XToWayland => CommandLine {
            program: "xclip".to_owned(),
            args: vec![
                "-selection".to_owned(),
                "clipboard".to_owned(),
                "-o".to_owned(),
                "-t".to_owned(),
                mime.to_owned(),
            ],
        },
        Direction::WaylandToX => CommandLine {
            program: "wl-paste".to_owned(),
            args: vec!["-n".to_owned(), "-t".to_owned(), mime.to_owned()],
        },
    };
    assert(command@.args =~= reading(direction, mime@).args);
    command
}

/// The command that offers its input as `mime` on the other clipboard.
pub fn write_command(direction: Direction, mime: &str) -> (command: CommandLine)
    ensures
        command@ == writing(direction, mime@),
        direction == Direction::XToWayland ==> command.program@ == "wl-copy"@ && text::texts(
            command.args@,
        ) == seq!["-t"@, mime@],
        direction == Direction::WaylandToX ==> command.program@ == "xclip"@ && text::texts(
            command.args@,
        ) == seq!["-selection"@, "clipboard"@, "-i"@, "-t"@, mime@],
{
    let command: CommandLine = match direction {
        Direction::XToWayland => CommandLine {
            program: "wl-copy".to_owned(),
            args: vec!["-t".to_owned(), mime.to_owned()],
        },
        Direction::WaylandToX => CommandLine {
            program: "xclip".to_owned(),
            args: vec![
                "-selection".to_owned(),
                "clipboard".to_owned(),
                "-i".to_owned(),
                "-t".to_owned(),
                mime.to_owned(),
            ],
        },
    };
    assert(command@.args =~= writing(direction, mime@).args);
    command
}

/// The command lines, whatever the type: it is their last argument and makes no other
/// difference. Wayland is read without a line feed added at the end.
pub proof fn law_command_lines(mime: Seq<char>)
    ensures
        listing(Direction::XToWayland).program == "xclip"@,
        listing(Direction::XToWayland).args == seq![
            "-selection"@,
            "clipboard"@,
            "-t"@,
            "TARGETS"@,
            "-o"@,
        ],
        listing(Direction::WaylandToX).program == "wl-paste"@,
        listing(Direction::WaylandToX).args == seq!["--list-types"@],
        reading(Direction::XToWayland, mime).program == "xclip"@,
        reading(Direction::XToWayland, mime).args == seq![
            "-selection"@,
            "clipboard"@,
            "-o"@,
            "-t"@,
            mime,
        ],
        reading(Direction::WaylandToX, mime).program == "wl-paste"@,
        reading(Direction::WaylandToX, mime).args == seq!["-n"@, "-t"@, mime],
        writing(Direction::XToWayland, mime).program == "wl-copy"@,
        writing(Direction::XToWayland, mime).args == seq!["-t"@, mime],
        writing(Direction::WaylandToX, mime).program == "xclip"@,
        writing(Direction::WaylandToX, mime).args == seq![
            "-selection"@,
            "clipboard"@,
            "-i"@,
            "-t"@,
            mime,
        ],
{
}

/// The type is the last argument of the commands that read and write, and all that tells two
/// of them apart.
pub proof fn law_type_is_the_last_argument(
    direction: Direction,
    mime: Seq<char>,
    other: Seq<char>,
)
    ensures
        reading(direction, mime).args.len() > 0,
        reading(direction, mime).args.last() == mime,
        reading(direction, mime).program == reading(direction, other).program,
        reading(direction, mime).args.drop_last() == reading(direction, other).args.drop_last(),
        direction == Direction::WaylandToX ==> reading(direction, mime).args.drop_last().contains(
            "-n"@,
        ),
        writing(direction, mime).args.len() > 0,
        writing(direction, mime).args.last() == mime,
        writing(direction, mime).program == writing(direction, other).program,
        writing(direction, mime).args.drop_last() == writing(direction, other).args.drop_last(),
{
    assert(reading(direction, mime).args.drop_last() =~= reading(
        direction,
        other,
    ).args.drop_last());
    assert(writing(direction, mime).args.drop_last() =~= writing(
        direction,
        other,
    ).args.drop_last());
    if direction == Direction::WaylandToX {
        assert(reading(direction, mime).args.drop_last()[0] == "-n"@);
    }
}

/// A command line is viewed as its program and its arguments, in order.
pub proof fn law_command_view(command: CommandLine)
    ensures
        command@.program == command.program@,
        command@.args.len() == command.args.len(),
        forall|i: int| 0 <= i < command.args.len() ==> #[trigger] command@.args[i] == command.args@[i]@,
{
}

} // verus!
