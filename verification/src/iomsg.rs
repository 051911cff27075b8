//! The control-message buffers of `sendmsg` and `recvmsg`: how file descriptors
//! are laid out in an `SCM_RIGHTS` message and read back out of a received
//! control buffer.
//!
//! The layout is that of `libc` on 64-bit little-endian Linux: a header of
//! 16 bytes (`cmsg_len` as a `usize`, then `cmsg_level` and `cmsg_type` as
//! `i32`), followed by the data, with every message aligned to 8 bytes.

use vstd::prelude::*;
use vstd::bytes::*;
use crate::sys::{msg_ctrunc, scm_rights, sol_socket, spec_msg_ctrunc, spec_scm_rights, spec_sol_socket};

verus! {

/// Size of a control-message header, already a multiple of the alignment.
pub const CMSG_HEADER_LEN: usize = 16;

/// Size of one file descriptor in the data of an `SCM_RIGHTS` message.
pub const FD_SIZE: usize = 4;

/// `CMSG_ALIGN`: `len` rounded up to a multiple of 8.
pub open spec fn spec_cmsg_align(len: int) -> int {
    (len + 7) / 8 * 8
}

/// `CMSG_SPACE`: the buffer space one message with `len` data bytes takes.
pub open spec fn spec_cmsg_space(len: int) -> int {
    CMSG_HEADER_LEN + spec_cmsg_align(len)
}

/// `CMSG_LEN`: the `cmsg_len` of one message with `len` data bytes.
pub open spec fn spec_cmsg_len(len: int) -> int {
    CMSG_HEADER_LEN + len
}

/// `CMSG_ALIGN` of `libc`, computed without overflow.
pub fn cmsg_align(len: usize) -> (r: usize)
    requires
        len + 7 <= usize::MAX,
    ensures
        r == spec_cmsg_align(len as int),
{
    (len + 7) / 8 * 8
}

/// `CMSG_SPACE` of `libc`.
pub fn cmsg_space(length: u32) -> (r: u32)
    requires
        spec_cmsg_space(length as int) <= u32::MAX,
    ensures
        r == spec_cmsg_space(length as int),
{
    ((length as usize + 7) / 8 * 8 + CMSG_HEADER_LEN) as u32
}

/// `CMSG_LEN` of `libc`.
pub fn cmsg_len(length: u32) -> (r: u32)
    requires
        spec_cmsg_len(length as int) <= u32::MAX,
    ensures
        r == spec_cmsg_len(length as int),
{
    CMSG_HEADER_LEN as u32 + length
}

// === reading a received control buffer ===

/// The `cmsg_len` field of the header at `off`.
pub open spec fn spec_cmsg_len_at(buf: Seq<u8>, off: int) -> int {
    spec_u64_from_le_bytes(buf.subrange(off, off + 8)) as int
}

/// The `cmsg_level` field of the header at `off`.
pub open spec fn spec_cmsg_level_at(buf: Seq<u8>, off: int) -> i32 {
    spec_u32_from_le_bytes(buf.subrange(off + 8, off + 12)) as i32
}

/// The `cmsg_type` field of the header at `off`.
pub open spec fn spec_cmsg_type_at(buf: Seq<u8>, off: int) -> i32 {
    spec_u32_from_le_bytes(buf.subrange(off + 12, off + 16)) as i32
}

/// `CMSG_FIRSTHDR`: the first header, if the buffer holds one.
pub open spec fn spec_first_cmsg(buf: Seq<u8>) -> Option<int> {
    if buf.len() >= CMSG_HEADER_LEN {
        Some(0)
    } else {
        None
    }
}

/// `CMSG_NXTHDR`: the header after the one at `off`, if its length is sound and
/// a whole header fits after it.
pub open spec fn spec_next_cmsg(buf: Seq<u8>, off: int) -> Option<int> {
    let len = spec_cmsg_len_at(buf, off);
    if len < CMSG_HEADER_LEN {
        None
    } else if off + spec_cmsg_align(len) + CMSG_HEADER_LEN > buf.len() {
        None
    } else {
        Some(off + spec_cmsg_align(len))
    }
}

/// The file descriptors written one after another in `bytes`; a partial
/// descriptor at the end is left out.
pub open spec fn spec_fds_from_bytes(bytes: Seq<u8>) -> Seq<i32> {
    Seq::new(
        (bytes.len() / 4) as nat,
        |i: int| spec_u32_from_le_bytes(bytes.subrange(4 * i, 4 * i + 4)) as i32,
    )
}

/// The file descriptors that the message at `off` carries: those of an
/// `SCM_RIGHTS` message at the socket level whose length is at least a header
/// and lies inside the buffer, and none otherwise.
pub open spec fn spec_cmsg_fds(buf: Seq<u8>, off: int) -> Seq<i32> {
    let len = spec_cmsg_len_at(buf, off);
    if spec_cmsg_level_at(buf, off) == spec_sol_socket() && spec_cmsg_type_at(buf, off)
        == spec_scm_rights() && CMSG_HEADER_LEN <= len && off + len <= buf.len() {
        spec_fds_from_bytes(
            buf.subrange(
                off + CMSG_HEADER_LEN,
                off + CMSG_HEADER_LEN + (len - CMSG_HEADER_LEN) / 4 * 4,
            ),
        )
    } else {
        Seq::empty()
    }
}

/// The descriptors of the message at `off` and of every message after it.
pub open spec fn spec_fds_from(buf: Seq<u8>, off: int) -> Seq<i32>
    decreases buf.len() - off,
{
    if off < 0 || off + CMSG_HEADER_LEN > buf.len() {
        Seq::empty()
    } else {
        spec_cmsg_fds(buf, off) + match spec_next_cmsg(buf, off) {
            Some(next) => spec_fds_from(buf, next),
            None => Seq::empty(),
        }
    }
}

/// Every file descriptor that a received control buffer carries, in order.
pub open spec fn spec_control_fds(buf: Seq<u8>) -> Seq<i32> {
    match spec_first_cmsg(buf) {
        Some(off) => spec_fds_from(buf, off),
        None => Seq::empty(),
    }
}

/// The offset of the first message header in `buf`.
pub fn first_cmsg(buf: &[u8]) -> (r: Option<usize>)
    ensures
        r matches Some(off) ==> spec_first_cmsg(buf@) == Some(off as int),
        r is None ==> spec_first_cmsg(buf@) is None,
{
    if buf.len() >= CMSG_HEADER_LEN {
        Some(0)
    } else {
        None
    }
}

/// The `cmsg_len` of the header at `off`.
fn cmsg_len_at(buf: &[u8], off: usize) -> (r: u64)
    requires
        off + CMSG_HEADER_LEN <= buf.len(),
    ensures
        r as int == spec_cmsg_len_at(buf@, off as int),
{
    u64_from_le_bytes(&buf[off..off + 8])
}

/// The offset of the message header after the one at `off`.
pub fn next_cmsg(buf: &[u8], off: usize) -> (r: Option<usize>)
    requires
        off + CMSG_HEADER_LEN <= buf@.len(),
    ensures
        r matches Some(next) ==> spec_next_cmsg(buf@, off as int) == Some(next as int),
        r is None ==> spec_next_cmsg(buf@, off as int) is None,
{
    let len = cmsg_len_at(buf, off);
    let rest = buf.len() - off;
    if len < CMSG_HEADER_LEN as u64 {
        return None;
    }
    if len > rest as u64 {
        return None;
    }
    let l = len as usize;
    if l > usize::MAX - 7 {
        return None;
    }
    let aligned = cmsg_align(l);
    if aligned > rest {
        return None;
    }
    if rest - aligned < CMSG_HEADER_LEN {
        None
    } else {
        Some(off + aligned)
    }
}

/// Appends to `out` the file descriptors that the message at `off` carries.
fn push_cmsg_fds(buf: &[u8], off: usize, out: &mut Vec<i32>)
    requires
        off + CMSG_HEADER_LEN <= buf@.len(),
    ensures
        final(out)@ == old(out)@ + spec_cmsg_fds(buf@, off as int),
{
    let n = buf.len();
    let len = cmsg_len_at(buf, off);
    let level = #[verifier::truncate] (u32_from_le_bytes(&buf[off + 8..off + 12]) as i32);
    let kind = #[verifier::truncate] (u32_from_le_bytes(&buf[off + 12..off + 16]) as i32);
    let rest = buf.len() - off;
    if level != sol_socket() || kind != scm_rights() || len < CMSG_HEADER_LEN as u64 || len
        > rest as u64 {
        return;
    }
    let count = (len as usize - CMSG_HEADER_LEN) / FD_SIZE;
    let start = off + CMSG_HEADER_LEN;
    let ghost data = buf@.subrange(start as int, start + count * 4);
    let ghost init = out@;
    let mut i: usize = 0;
    while i < count
        invariant
            i <= count,
            n == buf@.len(),
            start + count * 4 <= n,
            data == buf@.subrange(start as int, start + count * 4),
            out@ == init + spec_fds_from_bytes(data).take(i as int),
        decreases count - i,
    {
        let a = start + i * FD_SIZE;
        let fd = #[verifier::truncate] (u32_from_le_bytes(&buf[a..a + FD_SIZE]) as i32);
        proof {
            assert(data.subrange(4 * i, 4 * i + 4) =~= buf@.subrange(a as int, a + 4));
            assert(spec_fds_from_bytes(data).take(i + 1) =~= spec_fds_from_bytes(data).take(
                i as int,
            ).push(fd));
        }
        out.push(fd);
        i += 1;
    }
    proof {
        assert(spec_fds_from_bytes(data).take(count as int) =~= spec_fds_from_bytes(data));
    }
}

/// Every file descriptor that the received control buffer `buf` carries, in
/// the order of the messages and, within a message, of the data.
pub fn control_fds(buf: &[u8]) -> (r: Vec<i32>)
    ensures
        r@ == spec_control_fds(buf@),
{
    let mut out: Vec<i32> = Vec::new();
    let mut cur = first_cmsg(buf);
    loop
        invariant
            cur matches Some(o) ==> o + CMSG_HEADER_LEN <= buf@.len(),
            out@ + match cur {
                Some(o) => spec_fds_from(buf@, o as int),
                None => Seq::empty(),
            } == spec_control_fds(buf@),
        ensures
            out@ == spec_control_fds(buf@),
        decreases match cur {
            Some(o) => buf@.len() + 1 - o,
            None => 0,
        },
    {
        match cur {
            None => {
                assert(out@ + Seq::<i32>::empty() =~= out@);
                break;
            },
            Some(off) => {
                let ghost before = out@;
                push_cmsg_fds(buf, off, &mut out);
                let next = next_cmsg(buf, off);
                proof {
                    assert(out@ + match next {
                        Some(o) => spec_fds_from(buf@, o as int),
                        None => Seq::empty(),
                    } =~= before + spec_fds_from(buf@, off as int));
                }
                cur = next;
            },
        }
    }
    out
}

// === writing a control buffer ===

/// The data of an `SCM_RIGHTS` message: the descriptors one after another.
pub open spec fn spec_fd_bytes(fds: Seq<i32>) -> Seq<u8>
    decreases fds.len(),
{
    if fds.len() == 0 {
        Seq::empty()
    } else {
        spec_fd_bytes(fds.drop_last()) + spec_u32_to_le_bytes(fds.last() as u32)
    }
}

/// The control buffer that passes `fds`: nothing when there are none, else one
/// `SCM_RIGHTS` message holding all of them, padded with zero bytes to its
/// `CMSG_SPACE`.
pub open spec fn spec_rights_message(fds: Seq<i32>) -> Seq<u8> {
    if fds.len() == 0 {
        Seq::empty()
    } else {
        let data_len: int = 4 * fds.len() as int;
        spec_u64_to_le_bytes(spec_cmsg_len(data_len) as u64) + spec_u32_to_le_bytes(
            spec_sol_socket() as u32,
        ) + spec_u32_to_le_bytes(spec_scm_rights() as u32) + spec_fd_bytes(fds) + Seq::new(
            (spec_cmsg_align(data_len) - data_len) as nat,
            |i: int| 0u8,
        )
    }
}

/// The data bytes of `fds`, four little-endian bytes per descriptor.
fn fd_bytes(fds: &[i32]) -> (r: Vec<u8>)
    ensures
        r@ == spec_fd_bytes(fds@),
{
    let n = fds.len();
    let mut out: Vec<u8> = Vec::new();
    let mut i: usize = 0;
    while i < n
        invariant
            i <= n,
            n == fds@.len(),
            out@ == spec_fd_bytes(fds@.take(i as int)),
        decreases n - i,
    {
        let mut word = u32_to_le_bytes(#[verifier::truncate] (fds[i] as u32));
        proof {
            assert(fds@.take(i + 1).drop_last() =~= fds@.take(i as int));
        }
        out.append(&mut word);
        i += 1;
    }
    proof {
        assert(fds@.take(n as int) =~= fds@);
    }
    out
}

/// The control buffer that passes `fds` (see [`spec_rights_message`]).
pub fn rights_message(fds: &[i32]) -> (r: Vec<u8>)
    requires
        spec_cmsg_space(4 * fds@.len() as int) <= u32::MAX,
    ensures
        r@ == spec_rights_message(fds@),
        r@.len() == if fds@.len() == 0 {
            0
        } else {
            spec_cmsg_space(4 * fds@.len() as int)
        },
{
    let n = fds.len();
    if n == 0 {
        return Vec::new();
    }
    proof {
        lemma_auto_spec_u64_to_from_le_bytes();
        lemma_auto_spec_u32_to_from_le_bytes();
        lemma_fd_bytes(fds@);
    }
    let data_len = n * FD_SIZE;
    let mut out = u64_to_le_bytes(cmsg_len(data_len as u32) as u64);
    let mut level = u32_to_le_bytes(#[verifier::truncate] (sol_socket() as u32));
    let mut kind = u32_to_le_bytes(#[verifier::truncate] (scm_rights() as u32));
    let mut data = fd_bytes(fds);
    out.append(&mut level);
    out.append(&mut kind);
    out.append(&mut data);
    let ghost body = out@;
    let pad = cmsg_align(data_len) - data_len;
    let mut j: usize = 0;
    while j < pad
        invariant
            j <= pad,
            out@ == body + Seq::new(j as nat, |i: int| 0u8),
        decreases pad - j,
    {
        out.push(0u8);
        j += 1;
        proof {
            assert(out@ =~= body + Seq::new(j as nat, |i: int| 0u8));
        }
    }
    out
}

/// The data bytes of `fds` are four per descriptor, the `i`-th four being the
/// `i`-th descriptor.
pub proof fn lemma_fd_bytes(fds: Seq<i32>)
    ensures
        spec_fd_bytes(fds).len() == 4 * fds.len(),
        forall|i: int|
            0 <= i < fds.len() ==> #[trigger] spec_fd_bytes(fds).subrange(4 * i, 4 * i + 4)
                == spec_u32_to_le_bytes(fds[i] as u32),
    decreases fds.len(),
{
    lemma_auto_spec_u32_to_from_le_bytes();
    if fds.len() > 0 {
        let init = fds.drop_last();
        lemma_fd_bytes(init);
        let b = spec_fd_bytes(fds);
        let last = spec_u32_to_le_bytes(fds.last() as u32);
        assert(b == spec_fd_bytes(init) + last);
        assert forall|i: int| 0 <= i < fds.len() implies #[trigger] b.subrange(4 * i, 4 * i + 4)
            == spec_u32_to_le_bytes(fds[i] as u32) by {
            if i < fds.len() - 1 {
                assert(b.subrange(4 * i, 4 * i + 4) =~= spec_fd_bytes(init).subrange(
                    4 * i,
                    4 * i + 4,
                ));
                assert(init[i] == fds[i]);
            } else {
                assert(b.subrange(4 * i, 4 * i + 4) =~= last);
            }
        }
    }
}

/// Reading the data bytes of `fds` back gives `fds`.
pub proof fn lemma_fd_bytes_roundtrip(fds: Seq<i32>)
    ensures
        spec_fds_from_bytes(spec_fd_bytes(fds)) == fds,
{
    lemma_fd_bytes(fds);
    lemma_auto_spec_u32_to_from_le_bytes();
    let b = spec_fd_bytes(fds);
    let r = spec_fds_from_bytes(b);
    assert forall|i: int| 0 <= i < fds.len() implies r[i] == fds[i] by {
        let x = fds[i];
        assert(b.subrange(4 * i, 4 * i + 4) == spec_u32_to_le_bytes(x as u32));
        assert((x as u32) as i32 == x) by (bit_vector);
    }
    assert(r =~= fds);
}

/// What is written is what is read: the control buffer made for `fds` gives
/// back exactly `fds`, in the same order, when it is received whole.
pub proof fn lemma_rights_message_roundtrip(fds: Seq<i32>)
    requires
        spec_cmsg_space(4 * fds.len() as int) <= u64::MAX,
    ensures
        spec_control_fds(spec_rights_message(fds)) == fds,
{
    if fds.len() > 0 {
        lemma_auto_spec_u64_to_from_le_bytes();
        lemma_auto_spec_u32_to_from_le_bytes();
        lemma_fd_bytes(fds);
        lemma_fd_bytes_roundtrip(fds);
        let data_len: int = 4 * fds.len() as int;
        let m = spec_rights_message(fds);
        let h0 = spec_u64_to_le_bytes(spec_cmsg_len(data_len) as u64);
        let h1 = spec_u32_to_le_bytes(spec_sol_socket() as u32);
        let h2 = spec_u32_to_le_bytes(spec_scm_rights() as u32);
        let d = spec_fd_bytes(fds);
        let p = Seq::new((spec_cmsg_align(data_len) - data_len) as nat, |i: int| 0u8);
        assert(m == h0 + h1 + h2 + d + p);
        assert(m.len() == spec_cmsg_space(data_len));
        assert(m.subrange(0, 8) =~= h0);
        assert(m.subrange(8, 12) =~= h1);
        assert(m.subrange(12, 16) =~= h2);
        assert(spec_cmsg_len_at(m, 0) == spec_cmsg_len(data_len));
        assert((1u32 as i32) == 1i32) by (bit_vector);
        assert(spec_cmsg_level_at(m, 0) == spec_sol_socket());
        assert(spec_cmsg_type_at(m, 0) == spec_scm_rights());
        assert(m.subrange(16, 16 + data_len) =~= d);
        assert(spec_cmsg_fds(m, 0) == fds);
        assert(spec_next_cmsg(m, 0) is None);
        assert(spec_fds_from(m, 0) == spec_cmsg_fds(m, 0) + Seq::<i32>::empty());
        assert(spec_fds_from(m, 0) =~= fds);
    }
}

// === the messages of `sendmsg` and `recvmsg` ===

/// The control part of a message header, in one of the states below. The data
/// slices of the message stay with the caller, which hands them to the system
/// call together with the control bytes held here.
#[derive(Debug)]
pub struct MsgHdr<State> {
    control: Vec<u8>,
    capacity: usize,
    flags: i32,
    state: State,
}

/// State of a message that is about to be received.
#[derive(Debug)]
pub struct RecvStart {}

/// State of a message that `recvmsg` has filled in.
#[derive(Debug)]
pub struct RecvEnd {
    bytes_recvieved: usize,
}

/// State of a message that is about to be sent.
#[derive(Debug)]
pub struct SendStart {}

/// State of a message whose control buffer holds the descriptors to send.
#[derive(Debug)]
pub struct SendReady {
    fds_sent: usize,
}

/// What a successful `sendmsg` transmitted.
#[derive(Debug)]
pub struct SendCounts {
    fds_sent: usize,
    bytes_sent: usize,
}

/// Error returned when a control buffer is too small for the descriptors that
/// are to be sent.
#[derive(Debug)]
pub struct CMsgSpaceError {}

impl CMsgSpaceError {
    /// The description of the error.
    pub fn message(&self) -> (r: &'static str)
        ensures
            r@ == "The buffer used to send file descriptors was too small."@,
    {
        "The buffer used to send file descriptors was too small."
    }
}

impl<State> MsgHdr<State> {
    /// The bytes of the control buffer: those to send, or those received.
    pub closed spec fn spec_control(&self) -> Seq<u8> {
        self.control@
    }

    /// The size of the control buffer.
    pub closed spec fn spec_capacity(&self) -> nat {
        self.capacity as nat
    }

    /// The flags that `recvmsg` returned.
    pub closed spec fn spec_flags(&self) -> i32 {
        self.flags
    }

    /// The size of the control buffer.
    pub fn capacity(&self) -> (r: usize)
        ensures
            r == self.spec_capacity(),
    {
        self.capacity
    }

    /// The bytes of the control buffer.
    pub fn control(&self) -> (r: &[u8])
        ensures
            r@ == self.spec_control(),
    {
        self.control.as_slice()
    }
}

/// Whether `flags` report that control data was cut short.
pub open spec fn spec_control_truncated(flags: i32) -> bool {
    flags & spec_msg_ctrunc() != 0
}

/// Whether `n` descriptors fit in a control buffer of `capacity` bytes.
pub open spec fn spec_fds_fit(n: int, capacity: int) -> bool {
    n == 0 || (spec_cmsg_space(4 * n) <= capacity && spec_cmsg_space(4 * n) <= u32::MAX)
}

impl MsgHdr<RecvStart> {
    /// The size of a control buffer big enough to hold `count` descriptors.
    pub fn cmsg_buffer_fds_space(count: usize) -> (r: usize)
        requires
            spec_cmsg_space(4 * count) <= u32::MAX,
        ensures
            r == spec_cmsg_space(4 * count),
    {
        cmsg_space((count * FD_SIZE) as u32) as usize
    }

    /// Starts a message to receive, with a control buffer of
    /// `cmsg_buffer_len` bytes.
    pub fn from_io_slice_mut(cmsg_buffer_len: usize) -> (r: MsgHdr<RecvStart>)
        ensures
            r.spec_capacity() == cmsg_buffer_len,
            r.spec_control() == Seq::<u8>::empty(),
            r.spec_flags() == 0,
    {
        MsgHdr { control: Vec::new(), capacity: cmsg_buffer_len, flags: 0, state: RecvStart {} }
    }

    /// Completes the message with what `recvmsg` returned: the count `res`, the
    /// control bytes it wrote and its flags. A count of -1 is a failure, whose
    /// cause is in `errno`.
    pub fn recv(self, res: isize, control: Vec<u8>, flags: i32) -> (r: Option<MsgHdr<RecvEnd>>)
        requires
            res >= -1,
            control@.len() <= self.spec_capacity(),
        ensures
            res == -1 <==> r is None,
            r matches Some(m) ==> {
                &&& m.spec_bytes_recvieved() == res
                &&& m.spec_control() == control@
                &&& m.spec_flags() == flags
                &&& m.spec_capacity() == self.spec_capacity()
                &&& m.spec_control().len() <= m.spec_capacity()
            },
    {
        match call_res(res) {
            None => None,
            Some(count) => Some(
                MsgHdr {
                    control,
                    capacity: self.capacity,
                    flags,
                    state: RecvEnd { bytes_recvieved: count as usize },
                },
            ),
        }
    }
}

impl MsgHdr<RecvEnd> {
    /// The number of data bytes received.
    pub closed spec fn spec_bytes_recvieved(&self) -> nat {
        self.state.bytes_recvieved as nat
    }

    /// The number of data bytes received.
    pub fn bytes_recvieved(&self) -> (r: usize)
        ensures
            r == self.spec_bytes_recvieved(),
    {
        self.state.bytes_recvieved
    }

    /// Whether some control data did not fit in the control buffer.
    pub fn was_control_truncated(&self) -> (r: bool)
        ensures
            r == spec_control_truncated(self.spec_flags()),
    {
        self.flags & msg_ctrunc() != 0
    }

    /// The file descriptors that were received, in order.
    pub fn fds_iter(&self) -> (r: Vec<i32>)
        ensures
            r@ == spec_control_fds(self.spec_control()),
    {
        control_fds(self.control.as_slice())
    }
}

impl MsgHdr<SendStart> {
    /// Starts a message to send, with a control buffer of `cmsg_buffer_len`
    /// bytes.
    pub fn from_io_slice(cmsg_buffer_len: usize) -> (r: MsgHdr<SendStart>)
        ensures
            r.spec_capacity() == cmsg_buffer_len,
            r.spec_control() == Seq::<u8>::empty(),
            r.spec_flags() == 0,
    {
        MsgHdr { control: Vec::new(), capacity: cmsg_buffer_len, flags: 0, state: SendStart {} }
    }

    /// Writes `fds` into the control buffer as one `SCM_RIGHTS` message; none
    /// at all when `fds` is empty. Fails when the buffer is too small.
    pub fn encode_fds(self, fds: &[i32]) -> (r: Result<MsgHdr<SendReady>, CMsgSpaceError>)
        ensures
            r is Ok <==> spec_fds_fit(fds@.len() as int, self.spec_capacity() as int),
            spec_rights_message(fds@).len() <= self.spec_capacity() && spec_rights_message(
                fds@,
            ).len() <= u32::MAX ==> r is Ok,
            r matches Ok(m) ==> {
                &&& m.spec_control() == spec_rights_message(fds@)
                &&& m.spec_fds_sent() == fds@.len()
                &&& m.spec_capacity() == self.spec_capacity()
                &&& m.spec_control().len() <= m.spec_capacity()
            },
    {
        proof {
            lemma_fds_fit_iff_message_fits(fds@, self.spec_capacity() as int);
        }
        let n = fds.len();
        if n > 0 {
            if n > 0x3fff_fffa {
                return Err(CMsgSpaceError {});
            }
            let space = cmsg_space((n * FD_SIZE) as u32);
            if space as usize > self.capacity {
                return Err(CMsgSpaceError {});
            }
        }
        Ok(self.encode_fitting_fds(fds))
    }

    /// Writes `fds`, which fit, into the control buffer.
    pub(crate) fn encode_fitting_fds(self, fds: &[i32]) -> (r: MsgHdr<SendReady>)
        requires
            spec_fds_fit(fds@.len() as int, self.spec_capacity() as int),
        ensures
            r.spec_control() == spec_rights_message(fds@),
            r.spec_fds_sent() == fds@.len(),
            r.spec_capacity() == self.spec_capacity(),
    {
        let control = rights_message(fds);
        MsgHdr { control, capacity: self.capacity, flags: 0, state: SendReady { fds_sent: fds.len() } }
    }
}

impl MsgHdr<SendReady> {
    /// The number of descriptors in the control buffer.
    pub closed spec fn spec_fds_sent(&self) -> nat {
        self.state.fds_sent as nat
    }

    /// Completes the message with the count `res` that `sendmsg` returned. A
    /// count of -1 is a failure, whose cause is in `errno`.
    pub fn send(self, res: isize) -> (r: Option<SendCounts>)
        requires
            res >= -1,
        ensures
            res == -1 <==> r is None,
            r matches Some(c) ==> c.spec_bytes_sent() == res && c.spec_fds_sent()
                == self.spec_fds_sent(),
    {
        match call_res(res) {
            None => None,
            Some(count) => Some(
                SendCounts { fds_sent: self.state.fds_sent, bytes_sent: count as usize },
            ),
        }
    }
}

impl SendCounts {
    /// The number of descriptors sent.
    pub closed spec fn spec_fds_sent(&self) -> nat {
        self.fds_sent as nat
    }

    /// The number of data bytes sent.
    pub closed spec fn spec_bytes_sent(&self) -> nat {
        self.bytes_sent as nat
    }

    /// The number of descriptors sent.
    pub fn fds_sent(&self) -> (r: usize)
        ensures
            r == self.spec_fds_sent(),
    {
        self.fds_sent
    }

    /// The number of data bytes sent.
    pub fn bytes_sent(&self) -> (r: usize)
        ensures
            r == self.spec_bytes_sent(),
    {
        self.bytes_sent
    }
}

/// Interprets the result of a system call that reports failure by -1 (the
/// cause then being in `errno`): `None` for -1, the result otherwise.
pub fn call_res(res: isize) -> (r: Option<isize>)
    ensures
        r == if res == -1 {
            None
        } else {
            Some(res)
        },
{
    if res == -1 {
        None
    } else {
        Some(res)
    }
}

/// The control buffer made for `fds` takes no space when there are none and
/// `CMSG_SPACE` of their data otherwise.
pub proof fn lemma_rights_message_len(fds: Seq<i32>)
    ensures
        spec_rights_message(fds).len() == if fds.len() == 0 {
            0
        } else {
            spec_cmsg_space(4 * fds.len() as int)
        },
{
    if fds.len() > 0 {
        lemma_auto_spec_u64_to_from_le_bytes();
        lemma_auto_spec_u32_to_from_le_bytes();
        lemma_fd_bytes(fds);
    }
}

/// The walk from the header at `off` finds at most one descriptor for every
/// four bytes that are left after that header.
pub proof fn lemma_fds_from_bound(buf: Seq<u8>, off: int)
    requires
        0 <= off,
        off + CMSG_HEADER_LEN <= buf.len(),
    ensures
        4 * spec_fds_from(buf, off).len() + CMSG_HEADER_LEN <= buf.len() - off,
    decreases buf.len() - off,
{
    let len = spec_cmsg_len_at(buf, off);
    let here = spec_cmsg_fds(buf, off);
    assert(4 * here.len() <= buf.len() - off - CMSG_HEADER_LEN);
    match spec_next_cmsg(buf, off) {
        Some(next) => {
            lemma_fds_from_bound(buf, next);
            if here.len() > 0 {
                assert(off + len <= next);
            }
        },
        None => {},
    }
}

/// A control buffer of at most `CMSG_SPACE` of `n` descriptors, `n` even,
/// carries at most `n` descriptors, however its bytes are laid out.
pub proof fn lemma_control_fds_bound(buf: Seq<u8>, n: int)
    requires
        0 <= n,
        n % 2 == 0,
        buf.len() <= spec_cmsg_space(4 * n),
    ensures
        spec_control_fds(buf).len() <= n,
{
    if buf.len() >= CMSG_HEADER_LEN {
        lemma_fds_from_bound(buf, 0);
    }
}

/// Of any control buffer that holds one `SCM_RIGHTS` message whose length
/// lies inside the buffer and after which no header fits, the descriptors are
/// the four-byte little-endian values of its data, in order, a partial one at
/// the end left out.
pub proof fn lemma_single_message_fds(buf: Seq<u8>)
    requires
        buf.len() >= CMSG_HEADER_LEN,
        spec_cmsg_level_at(buf, 0) == spec_sol_socket(),
        spec_cmsg_type_at(buf, 0) == spec_scm_rights(),
        CMSG_HEADER_LEN <= spec_cmsg_len_at(buf, 0) <= buf.len(),
        spec_next_cmsg(buf, 0) is None,
    ensures
        ({
            let k = (spec_cmsg_len_at(buf, 0) - CMSG_HEADER_LEN) / 4;
            &&& spec_control_fds(buf).len() == k
            &&& forall|i: int|
                0 <= i < k ==> #[trigger] spec_control_fds(buf)[i] == spec_u32_from_le_bytes(
                    buf.subrange(CMSG_HEADER_LEN + 4 * i, CMSG_HEADER_LEN + 4 * i + 4),
                ) as i32
        }),
{
    let len = spec_cmsg_len_at(buf, 0);
    let k = (len - CMSG_HEADER_LEN) / 4;
    let data = buf.subrange(CMSG_HEADER_LEN as int, CMSG_HEADER_LEN + k * 4);
    assert(spec_fds_from(buf, 0) == spec_cmsg_fds(buf, 0) + Seq::<i32>::empty());
    assert(spec_control_fds(buf) =~= spec_fds_from_bytes(data));
    assert forall|i: int| 0 <= i < k implies #[trigger] spec_control_fds(buf)[i]
        == spec_u32_from_le_bytes(
        buf.subrange(CMSG_HEADER_LEN + 4 * i, CMSG_HEADER_LEN + 4 * i + 4),
    ) as i32 by {
        assert(data.subrange(4 * i, 4 * i + 4) =~= buf.subrange(
            CMSG_HEADER_LEN + 4 * i,
            CMSG_HEADER_LEN + 4 * i + 4,
        ));
    }
}

/// `n` descriptors fit a buffer exactly when the control message that
/// carries them is no longer than the buffer (and than a `c_uint` can count).
pub proof fn lemma_fds_fit_iff_message_fits(fds: Seq<i32>, capacity: int)
    requires
        0 <= capacity,
    ensures
        spec_fds_fit(fds.len() as int, capacity) <==> (spec_rights_message(fds).len() <= capacity
            && spec_rights_message(fds).len() <= u32::MAX),
{
    lemma_rights_message_len(fds);
}

/// Fitting is monotone in the buffer: descriptors that fit a buffer fit every
/// larger one, so a buffer larger than the message never makes encoding fail.
pub proof fn lemma_fds_fit_monotone(n: int, capacity: int, larger: int)
    requires
        0 <= n,
        spec_fds_fit(n, capacity),
        capacity <= larger,
    ensures
        spec_fds_fit(n, larger),
{
}

/// Any number of descriptors whose message space is at most the buffer and
/// at most what a `c_uint` can count fits that buffer.
pub proof fn lemma_fds_fit_when_space_suffices(n: int, capacity: int)
    requires
        0 < n,
        spec_cmsg_space(4 * n) <= capacity,
        spec_cmsg_space(4 * n) <= u32::MAX,
    ensures
        spec_fds_fit(n, capacity),
{
}

} // verus!
