# fd_queue

Passing file descriptors between processes over Unix stream sockets.

- `src/` is the verified library: the bounded queue of descriptors waiting to
  be sent and the queue of received ones (`biqueue`), the layout of the
  `SCM_RIGHTS` control messages that carry them and the walk over a received
  control buffer (`iomsg`), the `EnqueueFd`/`DequeueFd` interfaces (`queue`),
  the small decisions of the socket types (`net`) and the socket-interface
  numbers read from `libc` (`sys`).
- `app/` holds the sockets themselves: a blocking `UnixStream` on std, a
  non-blocking one on mio and one on tokio, which make the `sendmsg`,
  `recvmsg` and `shutdown` system calls around the library.
- `tests/` exercises the library on concrete values.

The control-message layout is that of 64-bit little-endian Linux.
