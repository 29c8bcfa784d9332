//! Listening for changes on either clipboard.

use vstd::prelude::*;

verus! {

/// The pause between a change and the look at it, in milliseconds.
pub const EVENT_DEBOUNCE_MS: u64 = 30;

/// The pause before a listener is started again, in milliseconds.
pub const WATCH_RESTART_DELAY_MS: u64 = 1_000;

/// What a listener reports.
#[derive(Clone, Copy, Debug, PartialEq, Eq, Structural)]
pub enum WatchEvent {
    /// The clipboard has changed.
    Changed,
    /// The listener could not be started, or ended by itself without a change.
    NotRunning,
    /// The listener is of no more use: it cannot be read, or has closed its output.
    Broken,
}

/// What is to be done about it.
#[derive(Clone, Copy, Debug, PartialEq, Eq, Structural)]
pub enum WatchAction {
    /// Carry the clipboard over after the pause, and listen on.
    Sync { after_ms: u64 },
    /// Start the listener again after the pause.
    Restart { after_ms: u64 },
    /// End the listener, and start it again after the pause.
    StopAndRestart { after_ms: u64 },
}

/// What a run of the X11 listener, which ends at every change, tells: its exit, or nothing
/// where it could not be started.
pub fn x11_event(exit: Option<bool>) -> (event: WatchEvent)
    ensures
        event == (if exit == Some(true) {
            WatchEvent::Changed
        } else {
            WatchEvent::NotRunning
        }),
{
    match exit {
        Some(success) => {
            if success {
                WatchEvent::Changed
            } else {
                WatchEvent::NotRunning
            }
        },
        None => WatchEvent::NotRunning,
    }
}

/// What the Wayland listener, which puts out a line at every change, tells: whether it could
/// be started, and the next line, which may be unreadable or missing.
pub fn wayland_event(started: bool, line: Option<bool>) -> (event: WatchEvent)
    ensures
        event == (if !started {
            WatchEvent::NotRunning
        } else if line == Some(true) {
            WatchEvent::Changed
        } else {
            WatchEvent::Broken
        }),
{
    if !started {
        return WatchEvent::NotRunning;
    }
    match line {
        Some(readable) => {
            if readable {
                WatchEvent::Changed
            } else {
                WatchEvent::Broken
            }
        },
        None => WatchEvent::Broken,
    }
}

/// Carries over at every change, and starts a listener again that has stopped.
pub fn watch(event: WatchEvent) -> (action: WatchAction)
    ensures
        action == (match event {
            WatchEvent::Changed => WatchAction::Sync { after_ms: EVENT_DEBOUNCE_MS },
            WatchEvent::NotRunning => WatchAction::Restart { after_ms: WATCH_RESTART_DELAY_MS },
            WatchEvent::Broken => WatchAction::StopAndRestart { after_ms: WATCH_RESTART_DELAY_MS },
        }),
{
    match event {
        WatchEvent::Changed => WatchAction::Sync { after_ms: EVENT_DEBOUNCE_MS },
        WatchEvent::NotRunning => WatchAction::Restart { after_ms: WATCH_RESTART_DELAY_MS },
        WatchEvent::Broken => WatchAction::StopAndRestart { after_ms: WATCH_RESTART_DELAY_MS },
    }
}

} // verus!
