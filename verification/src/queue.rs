//! The interfaces for enqueuing file descriptors to be sent and dequeuing the
//! ones that were received, and the error of a full queue.

use vstd::prelude::*;

verus! {

/// An interface to enqueue a file descriptor for later transmission to a
/// different process.
///
/// The descriptor is transmitted after a `write()` of at least one byte and,
/// possibly, a `flush()`. The caller keeps the descriptor open until then.
pub trait EnqueueFd {
    /// Enqueue `fd` for later transmission to a different process.
    fn enqueue(&mut self, fd: i32) -> Result<(), QueueFullError>;
}

/// An interface to dequeue a file descriptor that was previously transmitted
/// from a different process.
///
/// A descriptor becomes available for dequeuing after at least one byte has
/// been `read()`. The caller is responsible for closing it.
pub trait DequeueFd {
    /// Dequeue a previously transmitted file descriptor.
    fn dequeue(&mut self) -> Option<i32>;
}

/// Error returned when the queue of file descriptors is full.
#[derive(Debug)]
pub struct QueueFullError {}

impl QueueFullError {
    /// Create a new `QueueFullError`.
    pub fn new() -> (r: QueueFullError)
        ensures
            r == (QueueFullError {}),
    {
        QueueFullError {}
    }

    /// The description of the error.
    pub fn message(&self) -> (r: &'static str)
        ensures
            r@ == "file descriptor queue is full"@,
    {
        "file descriptor queue is full"
    }
}

impl Default for QueueFullError {
    fn default() -> (r: QueueFullError)
        ensures
            r == (QueueFullError {}),
    {
        QueueFullError::new()
    }
}

} // verus!
