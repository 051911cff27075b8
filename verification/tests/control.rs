use fd_queue::biqueue::{cmsg_scm_rights_space, MAX_FD_COUNT};
use fd_queue::iomsg::{
    call_res, cmsg_align, cmsg_len, cmsg_space, control_fds, first_cmsg, next_cmsg,
    rights_message, MsgHdr, RecvStart, CMSG_HEADER_LEN,
};
use fd_queue::net::{after_attempt, shutdown_request, IoOutcome, PollAction, Shutdown};

fn header(len: u64, level: i32, kind: i32) -> Vec<u8> {
    let mut v = len.to_le_bytes().to_vec();
    v.extend_from_slice(&level.to_le_bytes());
    v.extend_from_slice(&kind.to_le_bytes());
    v
}

#[test]
fn cmsg_sizes() {
    assert_eq!(cmsg_align(0), 0);
    assert_eq!(cmsg_align(13), 16);
    assert_eq!(cmsg_align(16), 16);
    assert_eq!(cmsg_space(4), 24);
    assert_eq!(cmsg_space(8), 24);
    assert_eq!(cmsg_space(40), 56);
    assert_eq!(cmsg_len(4), 20);
    assert_eq!(MsgHdr::<RecvStart>::cmsg_buffer_fds_space(2), 24);
    assert_eq!(MsgHdr::<RecvStart>::cmsg_buffer_fds_space(MAX_FD_COUNT), 56);
    assert_eq!(cmsg_scm_rights_space(), 56);
}

#[test]
fn layout_matches_libc() {
    assert_eq!(std::mem::size_of::<libc::cmsghdr>(), CMSG_HEADER_LEN);
}

#[test]
fn rights_message_bytes() {
    let m = rights_message(&[5]);
    let mut expected = header(20, 1, 1);
    expected.extend_from_slice(&[5, 0, 0, 0, 0, 0, 0, 0]);
    assert_eq!(m, expected);
    assert_eq!(rights_message(&[]), Vec::<u8>::new());
    let two = rights_message(&[1, -1]);
    let mut expected = header(24, libc::SOL_SOCKET, libc::SCM_RIGHTS);
    expected.extend_from_slice(&[1, 0, 0, 0, 255, 255, 255, 255]);
    assert_eq!(two, expected);
}

#[test]
fn control_fds_reads_every_rights_message() {
    let mut buf = header(20, 1, 1);
    buf.extend_from_slice(&[9, 0, 0, 0, 0, 0, 0, 0]);
    buf.extend(header(24, 1, 1));
    buf.extend_from_slice(&[10, 0, 0, 0, 11, 0, 0, 0]);
    assert_eq!(first_cmsg(&buf), Some(0));
    assert_eq!(next_cmsg(&buf, 0), Some(24));
    assert_eq!(next_cmsg(&buf, 24), None);
    assert_eq!(control_fds(&buf), vec![9, 10, 11]);
}

#[test]
fn control_fds_skips_other_messages() {
    let mut buf = header(20, 1, 2);
    buf.extend_from_slice(&[9, 0, 0, 0, 0, 0, 0, 0]);
    buf.extend(header(20, 1, 1));
    buf.extend_from_slice(&[3, 0, 0, 0, 0, 0, 0, 0]);
    assert_eq!(control_fds(&buf), vec![3]);
}

#[test]
fn control_fds_of_short_or_malformed_buffers() {
    assert_eq!(first_cmsg(&[0u8; 15]), None);
    assert_eq!(control_fds(&[0u8; 15]), Vec::<i32>::new());
    // a header whose length is shorter than a header ends the walk
    let mut buf = header(8, 1, 1);
    buf.extend(header(20, 1, 1));
    buf.extend_from_slice(&[3, 0, 0, 0, 0, 0, 0, 0]);
    assert_eq!(control_fds(&buf), Vec::<i32>::new());
    // a length that runs past the buffer carries nothing
    let mut buf = header(40, 1, 1);
    buf.extend_from_slice(&[3, 0, 0, 0]);
    assert_eq!(control_fds(&buf), Vec::<i32>::new());
    // a partial descriptor at the end of the data is left out
    let mut buf = header(22, 1, 1);
    buf.extend_from_slice(&[3, 0, 0, 0, 4, 0, 0, 0]);
    assert_eq!(control_fds(&buf), vec![3]);
}

#[test]
fn call_res_reports_minus_one() {
    assert_eq!(call_res(-1), None);
    assert_eq!(call_res(0), Some(0));
    assert_eq!(call_res(17), Some(17));
}

#[test]
fn shutdown_requests_match_libc() {
    assert_eq!(shutdown_request(Shutdown::Read), libc::SHUT_RD);
    assert_eq!(shutdown_request(Shutdown::Write), libc::SHUT_WR);
    assert_eq!(shutdown_request(Shutdown::Both), libc::SHUT_RDWR);
    assert_eq!(shutdown_request(Shutdown::Write), 1);
}

#[test]
fn poll_steps() {
    assert_eq!(after_attempt(IoOutcome::Done(3)), PollAction::Complete(3));
    assert_eq!(after_attempt(IoOutcome::WouldBlock), PollAction::Retry);
    assert_eq!(after_attempt(IoOutcome::Failed), PollAction::Fail);
}
