//! The numbers of the socket interface that the control-message format and the
//! shutdown request are made of, read from `libc`.

use vstd::prelude::*;

verus! {

/// The protocol level of socket-level control messages.
pub open spec fn spec_sol_socket() -> i32 {
    1
}

/// The control-message type that carries file descriptors.
pub open spec fn spec_scm_rights() -> i32 {
    1
}

/// The `recvmsg` flag reporting that control data was cut short.
pub open spec fn spec_msg_ctrunc() -> i32 {
    8
}

/// The `shutdown` request for the read half.
pub open spec fn spec_shut_rd() -> i32 {
    0
}

/// The `shutdown` request for the write half.
pub open spec fn spec_shut_wr() -> i32 {
    1
}

/// The `shutdown` request for both halves.
pub open spec fn spec_shut_rdwr() -> i32 {
    2
}

/// Reads `libc::SOL_SOCKET`, which the Linux definitions in `libc` set to 1.
#[verifier::external_body]
pub(crate) fn sol_socket() -> (r: i32)
    ensures
        r == spec_sol_socket(),
{
    libc::SOL_SOCKET
}

/// Reads `libc::SCM_RIGHTS`, which the Linux definitions in `libc` set to 1.
#[verifier::external_body]
pub(crate) fn scm_rights() -> (r: i32)
    ensures
        r == spec_scm_rights(),
{
    libc::SCM_RIGHTS
}

/// Reads `libc::MSG_CTRUNC`, which the Linux definitions in `libc` set to 8.
#[verifier::external_body]
pub(crate) fn msg_ctrunc() -> (r: i32)
    ensures
        r == spec_msg_ctrunc(),
{
    libc::MSG_CTRUNC
}

/// Reads `libc::SHUT_RD`, which the Linux definitions in `libc` set to 0.
#[verifier::external_body]
pub(crate) fn shut_rd() -> (r: i32)
    ensures
        r == spec_shut_rd(),
{
    libc::SHUT_RD
}

/// Reads `libc::SHUT_WR`, which the Linux definitions in `libc` set to 1.
#[verifier::external_body]
pub(crate) fn shut_wr() -> (r: i32)
    ensures
        r == spec_shut_wr(),
{
    libc::SHUT_WR
}

/// Reads `libc::SHUT_RDWR`, which the Linux definitions in `libc` set to 2.
#[verifier::external_body]
pub(crate) fn shut_rdwr() -> (r: i32)
    ensures
        r == spec_shut_rdwr(),
{
    libc::SHUT_RDWR
}

} // verus!
