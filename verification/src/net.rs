//! The decisions of the socket types around the queue: which halves a
//! shutdown closes, and what a readiness-driven read or write does with the
//! outcome of one attempt.

use vstd::prelude::*;
use crate::sys::{shut_rd, shut_rdwr, shut_wr, spec_shut_rd, spec_shut_rdwr, spec_shut_wr};

verus! {

/// The halves of a connection that a shutdown closes.
#[derive(Debug, Clone, Copy, PartialEq, Eq, Structural)]
pub enum Shutdown {
    /// The reading half.
    Read,
    /// The writing half.
    Write,
    /// Both halves.
    Both,
}

/// The `how` argument of the `shutdown` system call for `how`.
pub fn shutdown_request(how: Shutdown) -> (r: i32)
    ensures
        r == match how {
            Shutdown::Read => spec_shut_rd(),
            Shutdown::Write => spec_shut_wr(),
            Shutdown::Both => spec_shut_rdwr(),
        },
{
    match how {
        Shutdown::Write => shut_wr(),
        Shutdown::Read => shut_rd(),
        Shutdown::Both => shut_rdwr(),
    }
}

/// The outcome of one attempt to read or write a non-blocking socket.
#[derive(Debug, Clone, Copy, PartialEq, Eq, Structural)]
pub enum IoOutcome {
    /// The attempt moved this many bytes.
    Done(usize),
    /// The socket was not ready after all.
    WouldBlock,
    /// The attempt failed for another reason.
    Failed,
}

/// What a readiness-driven read or write does next.
#[derive(Debug, Clone, Copy, PartialEq, Eq, Structural)]
pub enum PollAction {
    /// Report this many bytes moved.
    Complete(usize),
    /// Wait for readiness again and retry.
    Retry,
    /// Report the failure.
    Fail,
}

/// The next step of a readiness-driven read or write after an attempt: a
/// socket that was not ready after all is waited for again, anything else is
/// reported.
pub fn after_attempt(outcome: IoOutcome) -> (r: PollAction)
    ensures
        r == match outcome {
            IoOutcome::Done(n) => PollAction::Complete(n),
            IoOutcome::WouldBlock => PollAction::Retry,
            IoOutcome::Failed => PollAction::Fail,
        },
{
    match outcome {
        IoOutcome::Done(n) => PollAction::Complete(n),
        IoOutcome::WouldBlock => PollAction::Retry,
        IoOutcome::Failed => PollAction::Fail,
    }
}

} // verus!
