//! Running the clipboard tools: waiting, reading, writing and trying again.

use vstd::prelude::*;

verus! {

/// How long a clipboard tool may take to deliver, in milliseconds.
pub const CLIPBOARD_READ_TIMEOUT_MS: u64 = 10_000;

/// How long a clipboard tool may take to accept data, in milliseconds.
pub const CLIPBOARD_WRITE_TIMEOUT_MS: u64 = 10_000;

/// The pause between two looks at a running tool, in milliseconds.
pub const POLL_INTERVAL_MS: u64 = 10;

/// The pause before a write is tried again, in milliseconds.
pub const WRITE_RETRY_DELAY_MS: u64 = 100;

/// What a look at a child process shows.
#[derive(Clone, Copy, Debug, PartialEq, Eq, Structural)]
pub enum ChildPoll {
    Exited { success: bool },
    Running,
    Failed,
}

/// What is to be done with the child process.
#[derive(Clone, Copy, Debug, PartialEq, Eq, Structural)]
pub enum WaitAction {
    /// It has ended.
    Exited { success: bool },
    /// Its time is up: end it, and report no exit.
    Kill,
    /// Look again after the pause.
    Sleep { millis: u64 },
    /// Its state cannot be learnt: report no exit.
    GiveUp,
}

/// What is to be done after a look at the child process.
pub open spec fn wait_next(poll: ChildPoll, elapsed: int, timeout: int) -> WaitAction {
    match poll {
        ChildPoll::Exited { success } => WaitAction::Exited { success },
        ChildPoll::Running => if elapsed >= timeout {
            WaitAction::Kill
        } else {
            WaitAction::Sleep { millis: POLL_INTERVAL_MS }
        },
        ChildPoll::Failed => WaitAction::GiveUp,
    }
}

/// Decides, after a look at the child process, whether to wait on. Both times are in the
/// same unit.
pub fn wait_with_timeout(poll: ChildPoll, elapsed: u128, timeout: u128) -> (action: WaitAction)
    ensures
        action == wait_next(poll, elapsed as int, timeout as int),
        poll matches ChildPoll::Exited { success } ==> action == (WaitAction::Exited { success }),
        poll == ChildPoll::Failed ==> action == WaitAction::GiveUp,
        poll == ChildPoll::Running && elapsed < timeout ==> action == (WaitAction::Sleep {
            millis: 10,
        }),
        poll == ChildPoll::Running && elapsed >= timeout ==> action == WaitAction::Kill,
{
    match poll {
        ChildPoll::Exited { success } => WaitAction::Exited { success },
        ChildPoll::Running => {
            if elapsed >= timeout {
                WaitAction::Kill
            } else {
                WaitAction::Sleep { millis: POLL_INTERVAL_MS }
            }
        },
        ChildPoll::Failed => WaitAction::GiveUp,
    }
}

/// What has just happened while the clipboard is read.
#[derive(Debug)]
pub enum ReadStep {
    /// Reading has been asked for.
    Started,
    /// The buffer for the output was made, or could not be.
    BufferCreated { success: bool },
    /// The tool was started, or could not be.
    Spawned { success: bool },
    /// The tool has ended, well or not, or has not ended in time.
    Waited { exit: Option<bool> },
    /// The buffer was read, or could not be.
    Collected { data: Option<Vec<u8>> },
}

/// What there is to tell the user about a read.
#[derive(Clone, Copy, Debug, PartialEq, Eq, Structural)]
pub enum ReadNotice {
    Quiet,
    CannotStart,
    TimedOut,
}

/// What is to be done next while the clipboard is read.
#[derive(Debug)]
pub enum ReadAction {
    CreateBuffer,
    Spawn,
    Wait { millis: u64 },
    Collect,
    Finish { data: Option<Vec<u8>>, notice: ReadNotice },
}

/// What is to be done after a step of a read.
pub open spec fn read_next(step: ReadStep) -> ReadAction {
    match step {
        ReadStep::Started => ReadAction::CreateBuffer,
        ReadStep::BufferCreated { success } => if success {
            ReadAction::Spawn
        } else {
            ReadAction::Finish { data: None, notice: ReadNotice::Quiet }
        },
        ReadStep::Spawned { success } => if success {
            ReadAction::Wait { millis: CLIPBOARD_READ_TIMEOUT_MS }
        } else {
            ReadAction::Finish { data: None, notice: ReadNotice::CannotStart }
        },
        ReadStep::Waited { exit: Some(success) } => if success {
            ReadAction::Collect
        } else {
            ReadAction::Finish { data: None, notice: ReadNotice::Quiet }
        },
        ReadStep::Waited { exit: None } => ReadAction::Finish {
            data: None,
            notice: ReadNotice::TimedOut,
        },
        ReadStep::Collected { data } => ReadAction::Finish { data, notice: ReadNotice::Quiet },
    }
}

/// Reads the clipboard, one step at a time: takes what has just happened and says what is to
/// be done next.
pub fn read_clipboard(step: ReadStep) -> (action: ReadAction)
    ensures
        action == read_next(step),
{
    match step {
        ReadStep::Started => ReadAction::CreateBuffer,
        ReadStep::BufferCreated { success } => {
            if success {
                ReadAction::Spawn
            } else {
                ReadAction::Finish { data: None, notice: ReadNotice::Quiet }
            }
        },
        ReadStep::Spawned { success } => {
            if success {
                ReadAction::Wait { millis: CLIPBOARD_READ_TIMEOUT_MS }
            } else {
                ReadAction::Finish { data: None, notice: ReadNotice::CannotStart }
            }
        },
        ReadStep::Waited { exit: Some(success) } => {
            if success {
                ReadAction::Collect
            } else {
                ReadAction::Finish { data: None, notice: ReadNotice::Quiet }
            }
        },
        ReadStep::Waited { exit: None } => {
            ReadAction::Finish { data: None, notice: ReadNotice::TimedOut }
        },
        ReadStep::Collected { data } => ReadAction::Finish { data, notice: ReadNotice::Quiet },
    }
}

/// What has just happened while the clipboard is written.
#[derive(Clone, Copy, Debug, PartialEq, Eq, Structural)]
pub enum WriteStep {
    /// Writing has been asked for.
    Started,
    /// The buffer for the input was made, or could not be.
    BufferCreated { success: bool },
    /// The buffer was filled and rewound, or could not be.
    BufferFilled { success: bool },
    /// The tool was started, or could not be.
    Spawned { success: bool },
    /// The tool has ended, well or not, or has not ended in time.
    Waited { exit: Option<bool> },
}

/// What there is to tell the user about a write.
#[derive(Clone, Copy, Debug, PartialEq, Eq, Structural)]
pub enum WriteNotice {
    Quiet,
    NoBuffer,
    NotPrepared,
    CannotStart,
    Refused,
    TimedOut,
}

/// What is to be done next while the clipboard is written.
#[derive(Clone, Copy, Debug, PartialEq, Eq, Structural)]
pub enum WriteAction {
    CreateBuffer,
    FillBuffer,
    Spawn,
    Wait { millis: u64 },
    Finish { success: bool, notice: WriteNotice },
}

/// What is to be done after a step of a write.
pub open spec fn write_next(step: WriteStep) -> WriteAction {
    match step {
        WriteStep::Started => WriteAction::CreateBuffer,
        WriteStep::BufferCreated { success } => if success {
            WriteAction::FillBuffer
        } else {
            WriteAction::Finish { success: false, notice: WriteNotice::NoBuffer }
        },
        WriteStep::BufferFilled { success } => if success {
            WriteAction::Spawn
        } else {
            WriteAction::Finish { success: false, notice: WriteNotice::NotPrepared }
        },
        WriteStep::Spawned { success } => if success {
            WriteAction::Wait { millis: CLIPBOARD_WRITE_TIMEOUT_MS }
        } else {
            WriteAction::Finish { success: false, notice: WriteNotice::CannotStart }
        },
        WriteStep::Waited { exit: Some(success) } => WriteAction::Finish {
            success,
            notice: if success {
                WriteNotice::Quiet
            } else {
                WriteNotice::Refused
            },
        },
        WriteStep::Waited { exit: None } => WriteAction::Finish {
            success: false,
            notice: WriteNotice::TimedOut,
        },
    }
}

/// Writes the clipboard, one step at a time: takes what has just happened and says what is
/// to be done next.
pub fn write_clipboard(step: WriteStep) -> (action: WriteAction)
    ensures
        action == write_next(step),
{
    match step {
        WriteStep::Started => WriteAction::CreateBuffer,
        WriteStep::BufferCreated { success } => {
            if success {
                WriteAction::FillBuffer
            } else {
                WriteAction::Finish { success: false, notice: WriteNotice::NoBuffer }
            }
        },
        WriteStep::BufferFilled { success } => {
            if success {
                WriteAction::Spawn
            } else {
                WriteAction::Finish { success: false, notice: WriteNotice::NotPrepared }
            }
        },
        WriteStep::Spawned { success } => {
            if success {
                WriteAction::Wait { millis: CLIPBOARD_WRITE_TIMEOUT_MS }
            } else {
                WriteAction::Finish { success: false, notice: WriteNotice::CannotStart }
            }
        },
        WriteStep::Waited { exit: Some(success) } => {
            if success {
                WriteAction::Finish { success: true, notice: WriteNotice::Quiet }
            } else {
                WriteAction::Finish { success: false, notice: WriteNotice::Refused }
            }
        },
        WriteStep::Waited { exit: None } => {
            WriteAction::Finish { success: false, notice: WriteNotice::TimedOut }
        },
    }
}

/// What has just happened while a write is tried up to twice.
#[derive(Clone, Copy, Debug, PartialEq, Eq, Structural)]
pub enum RetryStep {
    Started,
    TriedOnce { success: bool },
    Paused,
    TriedTwice { success: bool },
}

/// What is to be done next while a write is tried up to twice.
#[derive(Clone, Copy, Debug, PartialEq, Eq, Structural)]
pub enum RetryAction {
    /// Write, and hand the result back as `TriedOnce`.
    Write,
    /// Wait, and go on with `Paused`.
    Pause { millis: u64 },
    /// Write, and hand the result back as `TriedTwice`.
    WriteAgain,
    Finish { success: bool },
}

/// What is to be done after a step of a write that is tried up to twice.
pub open spec fn retry_next(step: RetryStep) -> RetryAction {
    match step {
        RetryStep::Started => RetryAction::Write,
        RetryStep::TriedOnce { success: true } => RetryAction::Finish { success: true },
        RetryStep::TriedOnce { success: false } => RetryAction::Pause {
            millis: WRITE_RETRY_DELAY_MS,
        },
        RetryStep::Paused => RetryAction::WriteAgain,
        RetryStep::TriedTwice { success } => RetryAction::Finish { success },
    }
}

/// Writes the clipboard, and once more after a pause where that fails.
pub fn write_clipboard_with_retry(step: RetryStep) -> (action: RetryAction)
    ensures
        action == retry_next(step),
{
    match step {
        RetryStep::Started => RetryAction::Write,
        RetryStep::TriedOnce { success } => {
            if success {
                RetryAction::Finish { success: true }
            } else {
                RetryAction::Pause { millis: WRITE_RETRY_DELAY_MS }
            }
        },
        RetryStep::Paused => RetryAction::WriteAgain,
        RetryStep::TriedTwice { success } => RetryAction::Finish { success },
    }
}

/// The exit that waiting reports, for a sequence of looks at the child process and the times
/// at which they were taken. Nothing where every look asks for another one.
pub open spec fn waited(looks: Seq<(ChildPoll, int)>, timeout: int) -> Option<Option<bool>>
    decreases looks.len(),
{
    if looks.len() == 0 {
        None
    } else {
        match wait_next(looks[0].0, looks[0].1, timeout) {
            WaitAction::Exited { success } => Some(Some(success)),
            WaitAction::Sleep { .. } => waited(looks.skip(1), timeout),
            WaitAction::Kill | WaitAction::GiveUp => Some(None),
        }
    }
}

/// Waiting ends in time: a look at or after the timeout is the last one that matters.
pub proof fn law_wait_ends_in_time(looks: Seq<(ChildPoll, int)>, timeout: int, i: int)
    requires
        0 <= i < looks.len(),
        looks[i].1 >= timeout,
    ensures
        waited(looks, timeout) is Some,
        waited(looks, timeout) == waited(looks.take(i + 1), timeout),
    decreases looks.len(),
{
    let head = looks.take(i + 1);
    assert(head[0] == looks[0]);
    if i > 0 {
        assert(looks.skip(1)[i - 1] == looks[i]);
        law_wait_ends_in_time(looks.skip(1), timeout, i - 1);
        assert(head.skip(1) =~= looks.skip(1).take(i));
    }
}

/// A child process that is seen to end is reported with its exit, where every look before it
/// finds it running in time. The look that sees it may itself be late.
pub proof fn law_exit_is_reported(
    looks: Seq<(ChildPoll, int)>,
    timeout: int,
    i: int,
    success: bool,
)
    requires
        0 <= i < looks.len(),
        looks[i].0 == (ChildPoll::Exited { success }),
        forall|j: int|
            0 <= j < i ==> (#[trigger] looks[j]).0 == ChildPoll::Running && looks[j].1 < timeout,
    ensures
        waited(looks, timeout) == Some(Some(success)),
    decreases looks.len(),
{
    if i > 0 {
        let rest = looks.skip(1);
        assert forall|j: int| 0 <= j < i - 1 implies (#[trigger] rest[j]).0 == ChildPoll::Running
            && rest[j].1 < timeout by {
            assert(rest[j] == looks[j + 1]);
        }
        assert(looks[0].0 == ChildPoll::Running);
        law_exit_is_reported(rest, timeout, i - 1, success);
    }
}

/// What a whole read yields and what there is to tell, for what happens at each of its steps.
/// Nothing where an action would come out of turn.
pub open spec fn read_result(
    buffer: bool,
    spawned: bool,
    exit: Option<bool>,
    data: Option<Vec<u8>>,
) -> Option<(Option<Vec<u8>>, ReadNotice)> {
    match read_next(ReadStep::Started) {
        ReadAction::CreateBuffer => match read_next(ReadStep::BufferCreated { success: buffer }) {
            ReadAction::Spawn => match read_next(ReadStep::Spawned { success: spawned }) {
                ReadAction::Wait { .. } => match read_next(ReadStep::Waited { exit }) {
                    ReadAction::Collect => match read_next(ReadStep::Collected { data }) {
                        ReadAction::Finish { data, notice } => Some((data, notice)),
                        _ => None,
                    },
                    ReadAction::Finish { data, notice } => Some((data, notice)),
                    _ => None,
                },
                ReadAction::Finish { data, notice } => Some((data, notice)),
                _ => None,
            },
            ReadAction::Finish { data, notice } => Some((data, notice)),
            _ => None,
        },
        _ => None,
    }
}

/// A read yields what the tool has put out if every step goes well, and nothing otherwise: no
/// part of the output of a tool that failed or took too long is taken. The user is told of a
/// tool that cannot be started or takes too long.
pub proof fn law_read_yields_whole_output(
    buffer: bool,
    spawned: bool,
    exit: Option<bool>,
    data: Option<Vec<u8>>,
)
    ensures
        read_result(buffer, spawned, exit, data) == Some(
            (
                if buffer && spawned && exit == Some(true) {
                    data
                } else {
                    None
                },
                if buffer && !spawned {
                    ReadNotice::CannotStart
                } else if buffer && exit is None {
                    ReadNotice::TimedOut
                } else {
                    ReadNotice::Quiet
                },
            ),
        ),
{
}

/// Whether a whole write succeeds and what there is to tell, for what happens at each of its
/// steps. Nothing where an action would come out of turn.
pub open spec fn write_result(
    buffer: bool,
    filled: bool,
    spawned: bool,
    exit: Option<bool>,
) -> Option<(bool, WriteNotice)> {
    match write_next(WriteStep::Started) {
        WriteAction::CreateBuffer => match write_next(
            WriteStep::BufferCreated { success: buffer },
        ) {
            WriteAction::FillBuffer => match write_next(
                WriteStep::BufferFilled { success: filled },
            ) {
                WriteAction::Spawn => match write_next(WriteStep::Spawned { success: spawned }) {
                    WriteAction::Wait { .. } => match write_next(WriteStep::Waited { exit }) {
                        WriteAction::Finish { success, notice } => Some((success, notice)),
                        _ => None,
                    },
                    WriteAction::Finish { success, notice } => Some((success, notice)),
                    _ => None,
                },
                WriteAction::Finish { success, notice } => Some((success, notice)),
                _ => None,
            },
            WriteAction::Finish { success, notice } => Some((success, notice)),
            _ => None,
        },
        _ => None,
    }
}

/// A write succeeds if every step of it goes well, and only then. The user is told of the
/// first step that does not.
pub proof fn law_write_succeeds(buffer: bool, filled: bool, spawned: bool, exit: Option<bool>)
    ensures
        write_result(buffer, filled, spawned, exit) == Some(
            (
                buffer && filled && spawned && exit == Some(true),
                if !buffer {
                    WriteNotice::NoBuffer
                } else if !filled {
                    WriteNotice::NotPrepared
                } else if !spawned {
                    WriteNotice::CannotStart
                } else if exit is None {
                    WriteNotice::TimedOut
                } else if exit == Some(false) {
                    WriteNotice::Refused
                } else {
                    WriteNotice::Quiet
                },
            ),
        ),
{
}

/// How a write that is tried up to twice goes on: the writes and pauses that are still made,
/// and the result, if it comes to one.
pub struct RetryRun {
    pub writes: nat,
    pub pauses: nat,
    pub result: Option<bool>,
}

/// A write that is tried up to twice, from the given step on, for what the first and the
/// second write come to. It is followed for no more than `limit` actions.
pub open spec fn retry_run(step: RetryStep, first: bool, second: bool, limit: nat) -> RetryRun
    decreases limit,
{
    if limit == 0 {
        RetryRun { writes: 0, pauses: 0, result: None }
    } else {
        let left = (limit - 1) as nat;
        match retry_next(step) {
            RetryAction::Write => {
                let rest = retry_run(RetryStep::TriedOnce { success: first }, first, second, left);
                RetryRun { writes: rest.writes + 1, ..rest }
            },
            RetryAction::Pause { .. } => {
                let rest = retry_run(RetryStep::Paused, first, second, left);
                RetryRun { pauses: rest.pauses + 1, ..rest }
            },
            RetryAction::WriteAgain => {
                let rest = retry_run(
                    RetryStep::TriedTwice { success: second },
                    first,
                    second,
                    left,
                );
                RetryRun { writes: rest.writes + 1, ..rest }
            },
            RetryAction::Finish { success } => RetryRun {
                writes: 0,
                pauses: 0,
                result: Some(success),
            },
        }
    }
}

/// A write that fails is tried once more after a pause, and no more than that. It comes to a
/// result within four actions, which is success if one of the writes succeeds.
pub proof fn law_one_retry(first: bool, second: bool, limit: nat)
    requires
        limit >= 4,
    ensures
        retry_run(RetryStep::Started, first, second, limit) == (RetryRun {
            writes: if first {
                1
            } else {
                2
            },
            pauses: if first {
                0
            } else {
                1
            },
            result: Some(first || second),
        }),
{
    reveal_with_fuel(retry_run, 5);
}

/// A tool that is running is looked at again every ten milliseconds before its time is up, and
/// ended from then on. One that has ended is never ended again, whatever the time.
pub proof fn law_running_tool(elapsed: int, timeout: int, success: bool)
    ensures
        elapsed < timeout ==> wait_next(ChildPoll::Running, elapsed, timeout) == (
        WaitAction::Sleep { millis: 10 }),
        elapsed >= timeout ==> wait_next(ChildPoll::Running, elapsed, timeout) == WaitAction::Kill,
        wait_next(ChildPoll::Exited { success }, elapsed, timeout) == (WaitAction::Exited {
            success,
        }),
        wait_next(ChildPoll::Failed, elapsed, timeout) == WaitAction::GiveUp,
{
}

/// A tool may take ten seconds, to deliver as to accept, and a write is tried again after a
/// tenth of a second.
pub proof fn law_times()
    ensures
        read_next(ReadStep::Spawned { success: true }) == (ReadAction::Wait { millis: 10_000 }),
        write_next(WriteStep::Spawned { success: true }) == (WriteAction::Wait { millis: 10_000 }),
        retry_next(RetryStep::TriedOnce { success: false }) == (RetryAction::Pause {
            millis: 100,
        }),
{
}

} // verus!
