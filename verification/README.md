# gjio

Asynchronous sockets and timers for the `gj` event loop, with the
bookkeeping that decides what the event loop does next verified by Verus.

- `src/` is the verified library:
  - `timer.rs` — the queue of timers read against a clock frozen between
    turns of the loop: scheduling after a delay, the wait timeout, and
    processing the timers that are due (earliest first);
  - `handle_table.rs` — handles for registered descriptors, the lowest
    freed handle reused first;
  - `reactor.rs` — which waiters a readiness event (epoll) or a completion
    (IOCP) wakes, and the timeouts handed to the operating system;
  - `io.rs` — the steps of nonblocking reads, writes, accepts and connects:
    after each system call, whether to call again, wait, finish or fail;
  - `slice.rs` — a buffer of which a prefix is in use;
  - `laws.rs` — properties that span several operations.
- `app/` holds the promises, the system calls and the threads: the epoll
  reactor and sockets (`unix.rs`), the completion-port reactor and sockets
  (`windows.rs`), and the public API on `gj` promises (`lib.rs`).
- `tests/` runs the library on concrete values.
