use clipboard_sync::process::{
    read_clipboard, wait_with_timeout, write_clipboard, write_clipboard_with_retry, ChildPoll,
    ReadAction, ReadNotice, ReadStep, RetryAction, RetryStep, WaitAction, WriteAction, WriteNotice,
    WriteStep,
};
use clipboard_sync::watch::{watch, wayland_event, x11_event, WatchAction, WatchEvent};

#[test]
fn waiting_ends_at_the_timeout() {
    assert_eq!(
        wait_with_timeout(ChildPoll::Running, 9_999, 10_000),
        WaitAction::Sleep { millis: 10 }
    );
    assert_eq!(wait_with_timeout(ChildPoll::Running, 10_000, 10_000), WaitAction::Kill);
    assert_eq!(wait_with_timeout(ChildPoll::Running, 10_001, 10_000), WaitAction::Kill);
    assert_eq!(wait_with_timeout(ChildPoll::Failed, 0, 10_000), WaitAction::GiveUp);
    for success in [true, false] {
        assert_eq!(
            wait_with_timeout(ChildPoll::Exited { success }, 20_000, 10_000),
            WaitAction::Exited { success }
        );
    }
}

fn finish(step: ReadStep) -> (Option<Vec<u8>>, ReadNotice) {
    match read_clipboard(step) {
        ReadAction::Finish { data, notice } => (data, notice),
        other => panic!("{:?}", other),
    }
}

#[test]
fn a_read_that_goes_well() {
    assert!(matches!(read_clipboard(ReadStep::Started), ReadAction::CreateBuffer));
    assert!(matches!(
        read_clipboard(ReadStep::BufferCreated { success: true }),
        ReadAction::Spawn
    ));
    assert!(matches!(
        read_clipboard(ReadStep::Spawned { success: true }),
        ReadAction::Wait { millis: 10_000 }
    ));
    assert!(matches!(
        read_clipboard(ReadStep::Waited { exit: Some(true) }),
        ReadAction::Collect
    ));
    let data = Some(b"data".to_vec());
    assert_eq!(finish(ReadStep::Collected { data: data.clone() }), (data, ReadNotice::Quiet));
}

#[test]
fn a_read_that_fails() {
    assert_eq!(
        finish(ReadStep::BufferCreated { success: false }),
        (None, ReadNotice::Quiet)
    );
    assert_eq!(
        finish(ReadStep::Spawned { success: false }),
        (None, ReadNotice::CannotStart)
    );
    assert_eq!(
        finish(ReadStep::Waited { exit: Some(false) }),
        (None, ReadNotice::Quiet)
    );
    assert_eq!(finish(ReadStep::Waited { exit: None }), (None, ReadNotice::TimedOut));
    assert_eq!(finish(ReadStep::Collected { data: None }), (None, ReadNotice::Quiet));
}

#[test]
fn a_write_step_by_step() {
    let failed = |notice: WriteNotice| WriteAction::Finish {
        success: false,
        notice,
    };
    assert_eq!(write_clipboard(WriteStep::Started), WriteAction::CreateBuffer);
    assert_eq!(
        write_clipboard(WriteStep::BufferCreated { success: true }),
        WriteAction::FillBuffer
    );
    assert_eq!(
        write_clipboard(WriteStep::BufferCreated { success: false }),
        failed(WriteNotice::NoBuffer)
    );
    assert_eq!(
        write_clipboard(WriteStep::BufferFilled { success: true }),
        WriteAction::Spawn
    );
    assert_eq!(
        write_clipboard(WriteStep::BufferFilled { success: false }),
        failed(WriteNotice::NotPrepared)
    );
    assert_eq!(
        write_clipboard(WriteStep::Spawned { success: true }),
        WriteAction::Wait { millis: 10_000 }
    );
    assert_eq!(
        write_clipboard(WriteStep::Spawned { success: false }),
        failed(WriteNotice::CannotStart)
    );
    assert_eq!(
        write_clipboard(WriteStep::Waited { exit: Some(true) }),
        WriteAction::Finish {
            success: true,
            notice: WriteNotice::Quiet
        }
    );
    assert_eq!(
        write_clipboard(WriteStep::Waited { exit: Some(false) }),
        failed(WriteNotice::Refused)
    );
    assert_eq!(
        write_clipboard(WriteStep::Waited { exit: None }),
        failed(WriteNotice::TimedOut)
    );
}

#[test]
fn a_write_is_tried_twice_at_most() {
    for (first, second, tries, result) in [
        (true, false, 1, true),
        (false, true, 2, true),
        (false, false, 2, false),
    ] {
        let mut count = 0;
        let mut pauses = 0;
        let mut step = RetryStep::Started;
        let success = loop {
            step = match write_clipboard_with_retry(step) {
                RetryAction::Write => {
                    count += 1;
                    RetryStep::TriedOnce { success: first }
                }
                RetryAction::Pause { millis } => {
                    assert_eq!(millis, 100);
                    pauses += 1;
                    RetryStep::Paused
                }
                RetryAction::WriteAgain => {
                    count += 1;
                    RetryStep::TriedTwice { success: second }
                }
                RetryAction::Finish { success } => break success,
            };
        };
        assert_eq!(count, tries);
        assert_eq!(pauses, tries - 1);
        assert_eq!(success, result);
    }
}

#[test]
fn listeners_are_started_again() {
    assert_eq!(x11_event(Some(true)), WatchEvent::Changed);
    assert_eq!(x11_event(Some(false)), WatchEvent::NotRunning);
    assert_eq!(x11_event(None), WatchEvent::NotRunning);
    assert_eq!(wayland_event(true, Some(true)), WatchEvent::Changed);
    assert_eq!(wayland_event(true, Some(false)), WatchEvent::Broken);
    assert_eq!(wayland_event(true, None), WatchEvent::Broken);
    assert_eq!(wayland_event(false, None), WatchEvent::NotRunning);
    assert_eq!(watch(WatchEvent::Changed), WatchAction::Sync { after_ms: 30 });
    assert_eq!(watch(WatchEvent::NotRunning), WatchAction::Restart { after_ms: 1_000 });
    assert_eq!(watch(WatchEvent::Broken), WatchAction::StopAndRestart { after_ms: 1_000 });
}
