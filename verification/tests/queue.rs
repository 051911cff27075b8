use fd_queue::biqueue::{recv_fds, BiQueue, CMsgTruncatedError, PushFailureError, RecvError, Push};
use fd_queue::iomsg::{MsgHdr, RecvStart, SendStart};
use fd_queue::{DequeueFd, EnqueueFd, QueueFullError};
use std::collections::VecDeque;

fn receive(control: &[u8], bytes: isize, flags: i32) -> MsgHdr<fd_queue::iomsg::RecvEnd> {
    let start = MsgHdr::<RecvStart>::from_io_slice_mut(64);
    start.recv(bytes, control.to_vec(), flags).expect("recv failed")
}

#[test]
fn enqueue_accepts_up_to_queue_size() {
    let mut q = BiQueue::new();
    assert!(q.enqueue(3).is_ok());
    assert!(q.enqueue(4).is_ok());
    assert!(q.enqueue(5).is_err());
    assert_eq!(BiQueue::FD_QUEUE_SIZE, 2);
}

#[test]
fn successful_write_empties_the_outbound_queue() {
    let mut q = BiQueue::new();
    q.enqueue(3).unwrap();
    q.enqueue(4).unwrap();
    let msg = q.write_vectored();
    assert_eq!(msg.control().len(), 24);
    let counts = msg.send(5).unwrap();
    q.write_succeeded(&counts);
    let empty = q.write_vectored();
    assert_eq!(empty.control().len(), 0);
    assert!(q.enqueue(5).is_ok());
}

#[test]
fn failed_write_keeps_the_fds_for_the_retry() {
    let mut sender = BiQueue::new();
    sender.enqueue(8).unwrap();
    let first = sender.write_vectored();
    assert!(first.send(-1).is_none());
    let retry = sender.write_vectored();
    let control = retry.control().to_vec();
    let counts = retry.send(1).unwrap();
    sender.write_succeeded(&counts);
    assert!(sender.write_vectored().control().is_empty());
    let recv = BiQueue::read_start().recv(1, control, 0).unwrap();
    let mut receiver = BiQueue::new();
    assert_eq!(receiver.read_vectored(&recv).unwrap(), 1);
    assert_eq!(receiver.dequeue(), Some(8));
}

#[test]
fn write_succeeded_drops_only_the_sent_fds() {
    let mut q = BiQueue::new();
    q.enqueue(1).unwrap();
    let counts = q.write_vectored().send(1).unwrap();
    q.enqueue(2).unwrap();
    q.write_succeeded(&counts);
    let msg = q.write_vectored();
    let recv = BiQueue::read_start().recv(1, msg.control().to_vec(), 0).unwrap();
    let mut receiver = BiQueue::new();
    receiver.read_vectored(&recv).unwrap();
    assert_eq!(receiver.dequeue(), Some(2));
    assert_eq!(receiver.dequeue(), None);
}

#[test]
fn read_of_three_fds_into_a_two_fd_buffer_is_truncated() {
    // a peer's message of three descriptors does not fit a queue's read buffer
    let sent = fd_queue::iomsg::rights_message(&[1, 2, 3]);
    let start = BiQueue::read_start();
    assert!(sent.len() > start.capacity());
    // what the kernel writes into that buffer: the two descriptors that fit,
    // with MSG_CTRUNC set
    let delivered = fd_queue::iomsg::rights_message(&[1, 2]);
    assert_eq!(delivered.len(), start.capacity());
    let recv = start.recv(1, delivered, libc::MSG_CTRUNC).unwrap();
    let mut receiver = BiQueue::new();
    match receiver.read_vectored(&recv) {
        Err(RecvError::CMsgTruncated(_)) => {}
        other => panic!("unexpected result {:?}", other),
    }
    assert_eq!(receiver.dequeue(), Some(1));
    assert_eq!(receiver.dequeue(), Some(2));
    assert_eq!(receiver.dequeue(), None);
}

#[test]
fn fds_pass_from_writer_to_reader_in_order() {
    let mut sender = BiQueue::new();
    sender.enqueue(7).unwrap();
    sender.enqueue(-9).unwrap();
    let msg = sender.write_vectored();
    let start = BiQueue::read_start();
    assert_eq!(start.capacity(), 24);
    let recv = start.recv(1, msg.control().to_vec(), 0).unwrap();
    let mut receiver = BiQueue::new();
    assert_eq!(receiver.read_vectored(&recv).unwrap(), 1);
    assert_eq!(receiver.dequeue(), Some(7));
    assert_eq!(receiver.dequeue(), Some(-9));
    assert_eq!(receiver.dequeue(), None);
}

#[test]
fn dequeue_of_empty_queue_is_none() {
    let mut q = BiQueue::new();
    assert_eq!(q.dequeue(), None);
}

#[test]
fn truncated_read_is_an_error_but_keeps_the_fds() {
    let mut sender = BiQueue::new();
    sender.enqueue(11).unwrap();
    let msg = sender.write_vectored();
    let recv = receive(msg.control(), 3, 8);
    assert!(recv.was_control_truncated());
    let mut receiver = BiQueue::new();
    match receiver.read_vectored(&recv) {
        Err(RecvError::CMsgTruncated(_)) => {}
        other => panic!("unexpected result {:?}", other),
    }
    assert_eq!(receiver.dequeue(), Some(11));
}

#[test]
fn recv_fds_into_a_vecdeque() {
    let mut sender = BiQueue::new();
    sender.enqueue(1).unwrap();
    sender.enqueue(2).unwrap();
    let msg = sender.write_vectored();
    let recv = receive(msg.control(), 5, 0);
    let mut sink: VecDeque<i32> = VecDeque::new();
    sink.push_back(0);
    assert_eq!(recv_fds(&recv, &mut sink).unwrap(), 5);
    assert_eq!(sink, VecDeque::from(vec![0, 1, 2]));
}

#[test]
fn biqueue_push_goes_to_the_inbound_queue() {
    let mut q = BiQueue::new();
    assert!(Push::push(&mut q, 42).is_ok());
    assert_eq!(q.dequeue(), Some(42));
}

#[test]
fn recv_failure_is_none() {
    let start = MsgHdr::<RecvStart>::from_io_slice_mut(24);
    assert!(start.recv(-1, Vec::new(), 0).is_none());
}

#[test]
fn send_counts() {
    let start = MsgHdr::<SendStart>::from_io_slice(24);
    let ready = start.encode_fds(&[4, 5]).unwrap();
    let counts = ready.send(9).unwrap();
    assert_eq!(counts.fds_sent(), 2);
    assert_eq!(counts.bytes_sent(), 9);
    let failed = MsgHdr::<SendStart>::from_io_slice(24).encode_fds(&[4]).unwrap();
    assert!(failed.send(-1).is_none());
}

#[test]
fn encode_fails_when_the_buffer_is_too_small() {
    let start = MsgHdr::<SendStart>::from_io_slice(24);
    assert!(start.encode_fds(&[1, 2, 3]).is_err());
    let start = MsgHdr::<SendStart>::from_io_slice(0);
    assert!(start.encode_fds(&[]).is_ok());
}

#[test]
fn error_messages() {
    assert_eq!(QueueFullError::new().message(), "file descriptor queue is full");
    assert_eq!(QueueFullError::default().message(), "file descriptor queue is full");
    assert_eq!(
        CMsgTruncatedError::new().message(),
        "The buffer used to receive file descriptors was too small."
    );
    assert_eq!(
        PushFailureError::new().message(),
        "The sink for receiving file descriptors was unexpectedly full."
    );
}
