//! The interactive worker of a session, as decisions: what to do with each inbox
//! request, each read from the channel and each write attempt. The caller owns the
//! channel and performs the actions; `Starting → Running → Closing → Closed`.
use vstd::prelude::*;
use crate::session::PtyCommand;

verus! {

/// The initial terminal width.
pub const DEFAULT_PTY_COLS: u16 = 120;

/// The initial terminal height.
pub const DEFAULT_PTY_ROWS: u16 = 36;

/// Where a worker stands.
#[derive(Debug, Clone, Copy, PartialEq, Eq, Structural)]
pub enum WorkerState {
    Starting,
    Running,
    Closing,
    Closed,
}

/// What happened to a worker.
#[derive(Debug, Clone)]
pub enum WorkerEvent {
    /// The channel is open, has its terminal and reads without blocking.
    Opened,
    /// Opening the channel failed.
    OpenFailed,
    /// The inbox handed over one request.
    Command(PtyCommand),
    /// The inbox is gone: the session was closed.
    InboxGone,
    /// Writing input failed (the channel ended or reported an error).
    WriteFailed,
    /// A read returned this text.
    Output(String),
    /// A read returned nothing; `eof` tells whether the channel has ended.
    NoOutput { eof: bool },
    /// A read failed with an error other than would-block.
    ReadFailed,
    /// The channel was closed and its close confirmed.
    ChannelClosed,
}

/// What the worker's owner must do next.
#[derive(Debug, Clone)]
pub enum WorkerAction {
    /// Nothing.
    Nothing,
    /// Write this input to the channel until all of it is flushed.
    Write(String),
    /// Ask for a new terminal size; a failure is ignored.
    Resize { cols: u16, rows: u16 },
    /// Append this output to the session's buffer and forward it to the client.
    Publish(String),
    /// Nothing was read: sleep briefly before the next poll.
    Sleep,
    /// Close the channel and wait until it is closed.
    CloseChannel,
    /// Remove the session from the registry.
    RemoveSession,
}

/// Whether the worker still polls its channel.
pub open spec fn is_live(state: WorkerState) -> bool {
    state == WorkerState::Running
}

/// Decides the worker's next state and action after `event`.
///
/// A running worker writes input, resizes, publishes output in the order read and
/// sleeps when idle; a `Close` request, a vanished inbox, a failed write or read, or the
/// end of the channel send it to `Closing`, where it closes the channel; once that is
/// confirmed it is `Closed` and removes its session. A closed worker ignores everything.
pub fn worker_step(state: WorkerState, event: WorkerEvent) -> (r: (WorkerState, WorkerAction))
    ensures
        state == WorkerState::Closed ==> r.0 == WorkerState::Closed && r.1 is Nothing,
        state == WorkerState::Starting ==> (match event {
            WorkerEvent::Opened => r.0 == WorkerState::Running && r.1 is Nothing,
            WorkerEvent::OpenFailed => r.0 == WorkerState::Closed && r.1 is RemoveSession,
            _ => r.0 == WorkerState::Starting && r.1 is Nothing,
        }),
        state == WorkerState::Running ==> (match event {
            WorkerEvent::Command(PtyCommand::Input(text)) => r.0 == WorkerState::Running && r.1
                == WorkerAction::Write(text),
            WorkerEvent::Command(PtyCommand::Resize { cols, rows }) => r.0 == WorkerState::Running
                && r.1 == (WorkerAction::Resize { cols, rows }),
            WorkerEvent::Output(chunk) => r.0 == WorkerState::Running && r.1
                == WorkerAction::Publish(chunk),
            WorkerEvent::NoOutput { eof } => if eof {
                r.0 == WorkerState::Closing && r.1 is CloseChannel
            } else {
                r.0 == WorkerState::Running && r.1 is Sleep
            },
            WorkerEvent::Command(PtyCommand::Close) | WorkerEvent::InboxGone
            | WorkerEvent::WriteFailed | WorkerEvent::ReadFailed => r.0 == WorkerState::Closing
                && r.1 is CloseChannel,
            WorkerEvent::ChannelClosed => r.0 == WorkerState::Closed && r.1 is RemoveSession,
            _ => r.0 == WorkerState::Running && r.1 is Nothing,
        }),
        state == WorkerState::Closing ==> (match event {
            WorkerEvent::ChannelClosed => r.0 == WorkerState::Closed && r.1 is RemoveSession,
            _ => r.0 == WorkerState::Closing && r.1 is Nothing,
        }),
{
    match state {
        WorkerState::Closed => (WorkerState::Closed, WorkerAction::Nothing),
        WorkerState::Starting => match event {
            WorkerEvent::Opened => (WorkerState::Running, WorkerAction::Nothing),
            WorkerEvent::OpenFailed => (WorkerState::Closed, WorkerAction::RemoveSession),
            _ => (WorkerState::Starting, WorkerAction::Nothing),
        },
        WorkerState::Running => match event {
            WorkerEvent::Command(PtyCommand::Input(text)) => (
                WorkerState::Running,
                WorkerAction::Write(text),
            ),
            WorkerEvent::Command(PtyCommand::Resize { cols, rows }) => (
                WorkerState::Running,
                WorkerAction::Resize { cols, rows },
            ),
            WorkerEvent::Output(chunk) => (WorkerState::Running, WorkerAction::Publish(chunk)),
            WorkerEvent::NoOutput { eof } => if eof {
                (WorkerState::Closing, WorkerAction::CloseChannel)
            } else {
                (WorkerState::Running, WorkerAction::Sleep)
            },
            WorkerEvent::Command(PtyCommand::Close) | WorkerEvent::InboxGone
            | WorkerEvent::WriteFailed | WorkerEvent::ReadFailed => (
                WorkerState::Closing,
                WorkerAction::CloseChannel,
            ),
            WorkerEvent::ChannelClosed => (WorkerState::Closed, WorkerAction::RemoveSession),
            _ => (WorkerState::Running, WorkerAction::Nothing),
        },
        WorkerState::Closing => match event {
            WorkerEvent::ChannelClosed => (WorkerState::Closed, WorkerAction::RemoveSession),
            _ => (WorkerState::Closing, WorkerAction::Nothing),
        },
    }
}

/// What one write attempt on the channel returned.
#[derive(Debug, Clone, Copy, PartialEq, Eq, Structural)]
pub enum WriteOutcome {
    /// This many bytes were taken.
    Wrote(usize),
    /// The channel would block.
    WouldBlock,
    /// The channel reported an error.
    Failed,
}

/// What to do after a write attempt.
#[derive(Debug, Clone, Copy, PartialEq, Eq, Structural)]
pub enum WriteDecision {
    /// Continue from this many bytes written.
    Continue(usize),
    /// Wait briefly, then try again from this many bytes.
    Backoff(usize),
    /// Everything is written: flush.
    Flush,
    /// Give up: the worker fails.
    Fail,
}

/// Decides how writing `total` bytes goes on after an attempt made with `written` bytes
/// already taken: progress is counted (never past `total`), an empty write backs off
/// unless the channel has ended, would-block backs off, and an error fails.
pub fn write_step(written: usize, total: usize, outcome: WriteOutcome, eof: bool) -> (r: WriteDecision)
    requires
        written < total,
    ensures
        outcome == WriteOutcome::Failed ==> r == WriteDecision::Fail,
        outcome == WriteOutcome::WouldBlock ==> r == WriteDecision::Backoff(written),
        outcome == WriteOutcome::Wrote(0) ==> r == (if eof {
            WriteDecision::Fail
        } else {
            WriteDecision::Backoff(written)
        }),
        outcome is Wrote && outcome->Wrote_0 > 0 ==> r == (if outcome->Wrote_0 >= total - written {
            WriteDecision::Flush
        } else {
            WriteDecision::Continue((written + outcome->Wrote_0) as usize)
        }),
{
    match outcome {
        WriteOutcome::Failed => WriteDecision::Fail,
        WriteOutcome::WouldBlock => WriteDecision::Backoff(written),
        WriteOutcome::Wrote(n) => {
            if n == 0 {
                if eof {
                    WriteDecision::Fail
                } else {
                    WriteDecision::Backoff(written)
                }
            } else if n >= total - written {
                WriteDecision::Flush
            } else {
                WriteDecision::Continue(written + n)
            }
        },
    }
}

/// What one flush attempt on the channel returned.
#[derive(Debug, Clone, Copy, PartialEq, Eq, Structural)]
pub enum FlushOutcome {
    Flushed,
    WouldBlock,
    Failed,
}

/// What to do after a flush attempt.
#[derive(Debug, Clone, Copy, PartialEq, Eq, Structural)]
pub enum FlushDecision {
    /// The input is fully written and flushed.
    Done,
    /// Wait briefly, then flush again.
    Backoff,
    /// Give up: the worker fails.
    Fail,
}

/// Decides how flushing goes on: done once flushed, back off while the channel would
/// block, fail on an error.
pub fn flush_step(outcome: FlushOutcome) -> (r: FlushDecision)
    ensures
        outcome == FlushOutcome::Flushed ==> r == FlushDecision::Done,
        outcome == FlushOutcome::WouldBlock ==> r == FlushDecision::Backoff,
        outcome == FlushOutcome::Failed ==> r == FlushDecision::Fail,
{
    match outcome {
        FlushOutcome::Flushed => FlushDecision::Done,
        FlushOutcome::WouldBlock => FlushDecision::Backoff,
        FlushOutcome::Failed => FlushDecision::Fail,
    }
}

} // verus!
