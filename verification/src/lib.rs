//! Passing file descriptors between processes over Unix sockets: the bounded
//! queues of descriptors that wait to be sent or to be taken, and the
//! `SCM_RIGHTS` control messages that carry them.

pub mod biqueue;
pub mod iomsg;
pub mod net;
pub mod queue;
pub mod sys;

pub use biqueue::BiQueue;
pub use queue::{DequeueFd, EnqueueFd, QueueFullError};
