//! The bi-directional queue of file descriptors that a Unix stream passes: an
//! outbound queue of descriptors waiting for the next write and an inbound
//! queue of descriptors that reads have received.

use std::collections::VecDeque;
use vstd::prelude::*;
use crate::iomsg::{
    lemma_control_fds_bound, lemma_rights_message_len, lemma_rights_message_roundtrip, spec_cmsg_space, spec_control_fds,
    spec_control_truncated, spec_rights_message, MsgHdr, RecvEnd, RecvStart, SendCounts, SendReady,
    SendStart,
};
use crate::queue::{DequeueFd, EnqueueFd, QueueFullError};

verus! {

/// A sink that received file descriptors are pushed into.
pub trait Push<A>: Sized {
    /// Everything pushed into the sink so far that it still holds, in order.
    spec fn pushed(&self) -> Seq<A>;

    /// The sink's rule: whether, holding `contents`, it takes `item`. Pushing
    /// does not change the rule; which items are taken depends only on what
    /// the sink holds.
    spec fn accepts(&self, contents: Seq<A>, item: A) -> bool;

    /// Pushes `item` if the sink takes it, else hands it back and leaves the
    /// sink as it was.
    fn push(&mut self, item: A) -> (r: Result<(), A>)
        ensures
            r is Ok <==> old(self).accepts(old(self).pushed(), item),
            r is Ok ==> final(self).pushed() == old(self).pushed().push(item),
            r matches Err(x) ==> x == item && *final(self) == *old(self),
            forall|contents: Seq<A>, x: A| #[trigger]
                final(self).accepts(contents, x) == old(self).accepts(contents, x),
    ;
}

impl<A> Push<A> for VecDeque<A> {
    open spec fn pushed(&self) -> Seq<A> {
        self@
    }

    open spec fn accepts(&self, contents: Seq<A>, item: A) -> bool {
        true
    }

    /// Appends `item`; a `VecDeque` never refuses one.
    fn push(&mut self, item: A) -> (r: Result<(), A>)
        ensures
            r is Ok,
            final(self)@ == old(self)@.push(item),
    {
        self.push_back(item);
        Ok(())
    }
}

/// A `VecDeque` sink takes every item, whatever it holds.
pub proof fn lemma_vecdeque_takes_everything<A>(sink: VecDeque<A>, contents: Seq<A>, item: A)
    ensures
        sink.accepts(contents, item),
{
}

/// A `VecDeque` sink takes all of any descriptors in turn, so receiving into
/// it never stops at a refusal: every received descriptor is appended.
pub proof fn lemma_vecdeque_takes_in_turn(
    sink: VecDeque<i32>,
    start: Seq<i32>,
    fds: Seq<i32>,
    k: int,
)
    ensures
        spec_takes_in_turn(sink, start, fds, k),
{
}

/// Error of a read whose control data did not fit in the control buffer.
#[derive(Debug)]
pub struct CMsgTruncatedError {}

impl CMsgTruncatedError {
    /// Create a new `CMsgTruncatedError`.
    pub fn new() -> (r: CMsgTruncatedError)
        ensures
            r == (CMsgTruncatedError {}),
    {
        CMsgTruncatedError {}
    }

    /// The description of the error.
    pub fn message(&self) -> (r: &'static str)
        ensures
            r@ == "The buffer used to receive file descriptors was too small."@,
    {
        "The buffer used to receive file descriptors was too small."
    }
}

/// Error of a read whose received descriptors the sink did not all take.
#[derive(Debug)]
pub struct PushFailureError {}

impl PushFailureError {
    /// Create a new `PushFailureError`.
    pub fn new() -> (r: PushFailureError)
        ensures
            r == (PushFailureError {}),
    {
        PushFailureError {}
    }

    /// The description of the error.
    pub fn message(&self) -> (r: &'static str)
        ensures
            r@ == "The sink for receiving file descriptors was unexpectedly full."@,
    {
        "The sink for receiving file descriptors was unexpectedly full."
    }
}

/// Why the descriptors of a received message could not all be delivered.
#[derive(Debug)]
pub enum RecvError {
    /// The control data was cut short; the descriptors that did arrive were
    /// delivered.
    CMsgTruncated(CMsgTruncatedError),
    /// The sink refused a descriptor; it and those after it are handed back,
    /// to be closed.
    PushFailure(PushFailureError, Vec<i32>),
}

/// Whether `sink`, starting from `start`, takes each of the first `k` of
/// `fds` in turn.
pub open spec fn spec_takes_in_turn<S: Push<i32>>(
    sink: S,
    start: Seq<i32>,
    fds: Seq<i32>,
    k: int,
) -> bool {
    forall|j: int| 0 <= j < k ==> #[trigger] sink.accepts(start + fds.take(j), fds[j])
}

/// Delivers the descriptors of the received message `recv` to `fds_sink`, in
/// order, and gives the number of data bytes received. Stops at the first
/// descriptor the sink refuses and hands back that one and the rest, whether or
/// not the control data was cut short. Otherwise a message whose control data
/// was cut short is an error once its descriptors are delivered.
pub fn recv_fds<S: Push<i32>>(recv: &MsgHdr<RecvEnd>, fds_sink: &mut S) -> (r: Result<
    usize,
    RecvError,
>)
    ensures
        ({
            let fds = spec_control_fds(recv.spec_control());
            let truncated = spec_control_truncated(recv.spec_flags());
            match r {
                Ok(n) => {
                    &&& n == recv.spec_bytes_recvieved()
                    &&& !truncated
                    &&& spec_takes_in_turn(*old(fds_sink), old(fds_sink).pushed(), fds, fds.len() as int)
                    &&& final(fds_sink).pushed() == old(fds_sink).pushed() + fds
                },
                Err(RecvError::CMsgTruncated(_)) => {
                    &&& truncated
                    &&& spec_takes_in_turn(*old(fds_sink), old(fds_sink).pushed(), fds, fds.len() as int)
                    &&& final(fds_sink).pushed() == old(fds_sink).pushed() + fds
                },
                Err(RecvError::PushFailure(_, rejected)) => {
                    let k = fds.len() - rejected@.len();
                    &&& 0 < rejected@.len() <= fds.len()
                    &&& rejected@ == fds.skip(k)
                    &&& spec_takes_in_turn(*old(fds_sink), old(fds_sink).pushed(), fds, k)
                    &&& !old(fds_sink).accepts(old(fds_sink).pushed() + fds.take(k), fds[k])
                    &&& final(fds_sink).pushed() == old(fds_sink).pushed() + fds.take(k)
                },
            }
        }),
        recv.spec_control().len() <= spec_cmsg_space(4 * MAX_FD_COUNT) ==> {
            final(fds_sink).pushed().len() <= old(fds_sink).pushed().len() + MAX_FD_COUNT
        },
{
    let mut fds = recv.fds_iter();
    let n = fds.len();
    proof {
        if recv.spec_control().len() <= spec_cmsg_space(4 * MAX_FD_COUNT) {
            lemma_control_fds_bound(recv.spec_control(), MAX_FD_COUNT as int);
        }
    }
    let ghost all = fds@;
    let ghost init = fds_sink.pushed();
    let mut i: usize = 0;
    while i < n
        invariant
            i <= n,
            n == fds@.len(),
            fds@ == all,
            all == spec_control_fds(recv.spec_control()),
            fds_sink.pushed() == init + all.take(i as int),
            init == old(fds_sink).pushed(),
            spec_takes_in_turn(*old(fds_sink), init, all, i as int),
            forall|contents: Seq<i32>, x: i32| #[trigger]
                fds_sink.accepts(contents, x) == old(fds_sink).accepts(contents, x),
            recv.spec_control().len() <= spec_cmsg_space(4 * MAX_FD_COUNT) ==> all.len()
                <= MAX_FD_COUNT,
        decreases n - i,
    {
        let fd = fds[i];
        let pushed = fds_sink.push(fd);
        match pushed {
            Ok(()) => {
                proof {
                    assert(all.take(i + 1) =~= all.take(i as int).push(fd));
                    assert(old(fds_sink).accepts(init + all.take(i as int), all[i as int]));
                }
            },
            Err(_) => {
                let rejected = fds.split_off(i);
                proof {
                    assert(rejected@ =~= all.skip(i as int));
                }
                return Err(RecvError::PushFailure(PushFailureError::new(), rejected));
            },
        }
        i += 1;
    }
    proof {
        assert(all.take(n as int) =~= all);
    }
    if recv.was_control_truncated() {
        Err(RecvError::CMsgTruncated(CMsgTruncatedError::new()))
    } else {
        Ok(recv.bytes_recvieved())
    }
}

/// The bi-directional queue for passing file descriptors over a Unix stream.
///
/// Descriptors enqueued through [`EnqueueFd`] wait in a bounded outbound
/// queue until the next write takes them all into its control message; the
/// descriptors that a read receives wait in the inbound queue until
/// [`DequeueFd`] takes them, first received first.
#[derive(Debug)]
pub struct BiQueue {
    infd: VecDeque<i32>,
    outfd: Vec<i32>,
}

/// The largest number of descriptors that one message may carry.
pub const MAX_FD_COUNT: usize = 10;

/// The size of a control buffer for [`MAX_FD_COUNT`] descriptors.
pub fn cmsg_scm_rights_space() -> (r: usize)
    ensures
        r == spec_cmsg_space(4 * MAX_FD_COUNT),
{
    MsgHdr::<RecvStart>::cmsg_buffer_fds_space(MAX_FD_COUNT)
}

impl BiQueue {
    /// The size of the bounded queue of outbound descriptors.
    pub const FD_QUEUE_SIZE: usize = 2;

    #[verifier::type_invariant]
    spec fn outbound_bounded(self) -> bool {
        self.outfd@.len() <= Self::FD_QUEUE_SIZE
    }

    /// The received descriptors not yet dequeued, oldest first.
    pub closed spec fn inbound(&self) -> Seq<i32> {
        self.infd@
    }

    /// The descriptors waiting for the next write, oldest first.
    pub closed spec fn outbound(&self) -> Seq<i32> {
        self.outfd@
    }

    /// An empty queue.
    pub fn new() -> (r: BiQueue)
        ensures
            r.inbound() == Seq::<i32>::empty(),
            r.outbound() == Seq::<i32>::empty(),
    {
        BiQueue {
            infd: VecDeque::with_capacity(Self::FD_QUEUE_SIZE),
            outfd: Vec::with_capacity(Self::FD_QUEUE_SIZE),
        }
    }

    /// The first half of a write: the control message that carries every
    /// outbound descriptor, in a control buffer sized for `FD_QUEUE_SIZE`
    /// descriptors. The queue is left as it is, so that an attempt that fails
    /// or has to be retried loses nothing.
    pub fn write_vectored(&self) -> (r: MsgHdr<SendReady>)
        ensures
            r.spec_control() == spec_rights_message(self.outbound()),
            r.spec_fds_sent() == self.outbound().len(),
            r.spec_capacity() == spec_cmsg_space(4 * Self::FD_QUEUE_SIZE),
    {
        proof {
            use_type_invariant(self);
        }
        let start = MsgHdr::<SendStart>::from_io_slice(
            MsgHdr::<RecvStart>::cmsg_buffer_fds_space(Self::FD_QUEUE_SIZE),
        );
        start.encode_fitting_fds(self.outfd.as_slice())
    }

    /// The second half of a write, once the send succeeded: drops the
    /// descriptors that `counts` reports sent, which are the oldest ones (all
    /// of them if it reports more than are queued).
    pub fn write_succeeded(&mut self, counts: &SendCounts)
        ensures
            final(self).outbound() == if counts.spec_fds_sent() <= old(self).outbound().len() {
                old(self).outbound().skip(counts.spec_fds_sent() as int)
            } else {
                Seq::<i32>::empty()
            },
            final(self).inbound() == old(self).inbound(),
    {
        proof {
            use_type_invariant(&*self);
        }
        let mut fds: Vec<i32> = Vec::new();
        std::mem::swap(&mut fds, &mut self.outfd);
        let sent = counts.fds_sent();
        let mut rest = if sent <= fds.len() {
            fds.split_off(sent)
        } else {
            Vec::new()
        };
        std::mem::swap(&mut rest, &mut self.outfd);
    }

    /// The start of a read: a message whose control buffer holds
    /// `FD_QUEUE_SIZE` descriptors.
    pub fn read_start() -> (r: MsgHdr<RecvStart>)
        ensures
            r.spec_capacity() == spec_cmsg_space(4 * Self::FD_QUEUE_SIZE),
            r.spec_control() == Seq::<u8>::empty(),
    {
        MsgHdr::<RecvStart>::from_io_slice_mut(
            MsgHdr::<RecvStart>::cmsg_buffer_fds_space(Self::FD_QUEUE_SIZE),
        )
    }

    /// The second half of a read: queues the descriptors that the received
    /// message `recv` carries, in order, and gives the number of data bytes
    /// received, or the error of control data that was cut short.
    pub fn read_vectored(&mut self, recv: &MsgHdr<RecvEnd>) -> (r: Result<usize, RecvError>)
        ensures
            final(self).inbound() == old(self).inbound() + spec_control_fds(recv.spec_control()),
            final(self).outbound() == old(self).outbound(),
            !spec_control_truncated(recv.spec_flags()) ==> (r matches Ok(n) && n
                == recv.spec_bytes_recvieved()),
            spec_control_truncated(recv.spec_flags()) ==> r matches Err(
                RecvError::CMsgTruncated(_),
            ),
            recv.spec_control().len() <= spec_cmsg_space(4 * Self::FD_QUEUE_SIZE) ==> {
                final(self).inbound().len() <= old(self).inbound().len() + Self::FD_QUEUE_SIZE
            },
    {
        proof {
            if recv.spec_control().len() <= spec_cmsg_space(4 * Self::FD_QUEUE_SIZE) {
                lemma_control_fds_bound(recv.spec_control(), Self::FD_QUEUE_SIZE as int);
            }
        }
        proof {
            use_type_invariant(&*self);
        }
        let mut infd: VecDeque<i32> = VecDeque::new();
        std::mem::swap(&mut infd, &mut self.infd);
        let r = recv_fds(recv, &mut infd);
        std::mem::swap(&mut infd, &mut self.infd);
        r
    }
}

impl EnqueueFd for BiQueue {
    /// Queues `fd` for the next write, unless `FD_QUEUE_SIZE` descriptors
    /// already wait.
    fn enqueue(&mut self, fd: i32) -> (r: Result<(), QueueFullError>)
        ensures
            old(self).outbound().len() < Self::FD_QUEUE_SIZE ==> {
                &&& r is Ok
                &&& final(self).outbound() == old(self).outbound().push(fd)
            },
            old(self).outbound().len() >= Self::FD_QUEUE_SIZE ==> {
                &&& r is Err
                &&& final(self).outbound() == old(self).outbound()
            },
            final(self).inbound() == old(self).inbound(),
            final(self).outbound().len() <= Self::FD_QUEUE_SIZE,
    {
        proof {
            use_type_invariant(&*self);
        }
        if self.outfd.len() >= Self::FD_QUEUE_SIZE {
            Err(QueueFullError::new())
        } else {
            let mut outfd: Vec<i32> = Vec::new();
            std::mem::swap(&mut outfd, &mut self.outfd);
            outfd.push(fd);
            std::mem::swap(&mut outfd, &mut self.outfd);
            Ok(())
        }
    }
}

impl DequeueFd for BiQueue {
    /// Takes the oldest received descriptor.
    fn dequeue(&mut self) -> (r: Option<i32>)
        ensures
            old(self).inbound().len() == 0 ==> {
                &&& r is None
                &&& final(self).inbound() == old(self).inbound()
            },
            old(self).inbound().len() > 0 ==> {
                &&& r == Some(old(self).inbound()[0])
                &&& final(self).inbound() == old(self).inbound().drop_first()
            },
            final(self).outbound() == old(self).outbound(),
    {
        proof {
            use_type_invariant(&*self);
        }
        let mut infd: VecDeque<i32> = VecDeque::new();
        std::mem::swap(&mut infd, &mut self.infd);
        let r = infd.pop_front();
        std::mem::swap(&mut infd, &mut self.infd);
        r
    }
}

impl Push<i32> for BiQueue {
    open spec fn pushed(&self) -> Seq<i32> {
        self.inbound()
    }

    open spec fn accepts(&self, contents: Seq<i32>, item: i32) -> bool {
        true
    }

    /// Queues a received descriptor.
    fn push(&mut self, item: i32) -> (r: Result<(), i32>)
        ensures
            r is Ok,
            final(self).outbound() == old(self).outbound(),
    {
        proof {
            use_type_invariant(&*self);
        }
        let mut infd: VecDeque<i32> = VecDeque::new();
        std::mem::swap(&mut infd, &mut self.infd);
        infd.push_back(item);
        std::mem::swap(&mut infd, &mut self.infd);
        Ok(())
    }
}

/// What one queue writes, another reads: the control message of a write
/// carries exactly the descriptors that waited in the outbound queue, in order,
/// and it fits in the control buffer of a read, so a read that receives it
/// whole leaves the reader's inbound queue as it was followed by those
/// descriptors in that order.
pub proof fn lemma_written_fds_are_read(outbound: Seq<i32>, inbound: Seq<i32>)
    requires
        outbound.len() <= BiQueue::FD_QUEUE_SIZE,
    ensures
        spec_control_fds(spec_rights_message(outbound)) == outbound,
        spec_rights_message(outbound).len() <= spec_cmsg_space(4 * BiQueue::FD_QUEUE_SIZE),
        inbound + spec_control_fds(spec_rights_message(outbound)) == inbound + outbound,
{
    lemma_rights_message_roundtrip(outbound);
    lemma_rights_message_len(outbound);
}

} // verus!
