//! The decisions of nonblocking socket I/O: after each system call, whether
//! to call again, to wait for the descriptor, to finish or to fail.

use vstd::prelude::*;

verus! {

/// The failure of a system call, by what the I/O loops do with it.
#[derive(Clone, Copy, Debug, PartialEq, Eq, Structural)]
pub enum Errno {
    /// `EINTR`: a signal interrupted the call.
    Interrupted,
    /// `EAGAIN` / `EWOULDBLOCK`: the call would have blocked.
    WouldBlock,
    /// `EINPROGRESS`: a connection is being made in the background.
    InProgress,
    /// Any other error number.
    Other(i32),
}

/// Whether a failed system call is simply made again.
pub fn should_retry(e: Errno) -> (b: bool)
    ensures
        b <==> e == Errno::Interrupted,
{
    match e {
        Errno::Interrupted => true,
        _ => false,
    }
}

/// Why a read failed.
#[derive(Clone, Copy, Debug, PartialEq, Eq, Structural)]
pub enum ReadError {
    /// The stream ended before the least number of bytes asked for came.
    PrematureEof,
}

impl ReadError {
    /// The text of the error.
    pub fn message(&self) -> (m: &'static str)
        ensures
            *self == ReadError::PrematureEof ==> m@ == "Premature EOF"@,
    {
        match self {
            ReadError::PrematureEof => "Premature EOF",
        }
    }
}

/// What `read` makes of a finished `try_read` that got `n` bytes when at
/// least `min_bytes` were asked for: the count, or an error when the
/// stream ended too early.
pub fn check_read_count(n: usize, min_bytes: usize) -> (r: Result<usize, ReadError>)
    ensures
        r == if n < min_bytes {
            Err::<usize, ReadError>(ReadError::PrematureEof)
        } else {
            Ok::<usize, ReadError>(n)
        },
{
    if n < min_bytes {
        Err(ReadError::PrematureEof)
    } else {
        Ok(n)
    }
}

/// What a read loop does next.
#[derive(Clone, Copy, Debug, PartialEq, Eq, Structural)]
pub enum ReadAction {
    /// Read into the buffer from this offset on.
    ReadAt(usize),
    /// Stop: this many bytes are in the buffer.
    Finish(usize),
    /// Wait until the descriptor is readable, then go on with this many bytes read.
    WaitReadable(usize),
    /// Give up with the error that the read reported.
    Fail,
}

/// Where a read loop stands with `already_read` bytes read of at least `min_bytes`.
pub open spec fn read_start_spec(already_read: usize, min_bytes: usize) -> ReadAction {
    if already_read < min_bytes {
        ReadAction::ReadAt(already_read)
    } else {
        ReadAction::Finish(already_read)
    }
}

/// What a read loop does after a read into the buffer at `already_read`.
pub open spec fn read_step_spec(
    already_read: usize,
    min_bytes: usize,
    outcome: Result<usize, Errno>,
) -> ReadAction {
    match outcome {
        Ok(n) => if n == 0 {
            ReadAction::Finish(already_read)
        } else {
            read_start_spec((already_read + n) as usize, min_bytes)
        },
        Err(Errno::Interrupted) => ReadAction::ReadAt(already_read),
        Err(Errno::WouldBlock) => ReadAction::WaitReadable(already_read),
        Err(_) => ReadAction::Fail,
    }
}

/// Starts (or resumes) a read loop: read on while fewer than `min_bytes`
/// bytes are in.
pub fn try_read_start(already_read: usize, min_bytes: usize) -> (a: ReadAction)
    ensures
        a == read_start_spec(already_read, min_bytes),
{
    if already_read < min_bytes {
        ReadAction::ReadAt(already_read)
    } else {
        ReadAction::Finish(already_read)
    }
}

/// Takes in what a read into a buffer of `buf_len` bytes, at offset
/// `already_read`, reported: zero bytes is the end of the stream; a signal
/// means read again; "would block" means wait until readable.
pub fn try_read_step(
    already_read: usize,
    min_bytes: usize,
    buf_len: usize,
    outcome: Result<usize, Errno>,
) -> (a: ReadAction)
    requires
        already_read < min_bytes,
        already_read <= buf_len,
        outcome matches Ok(n) ==> n <= buf_len - already_read,
    ensures
        a == read_step_spec(already_read, min_bytes, outcome),
        a matches ReadAction::ReadAt(k) ==> already_read <= k < min_bytes && k <= buf_len,
        a matches ReadAction::WaitReadable(k) ==> k == already_read,
        a matches ReadAction::Finish(k) ==> already_read <= k <= buf_len,
        outcome matches Ok(n) ==> (n == 0 ==> a == ReadAction::Finish(already_read)),
        outcome matches Ok(n) ==> (n > 0 && already_read + n >= min_bytes ==> a
            == ReadAction::Finish((already_read + n) as usize)),
        outcome matches Ok(n) ==> (n > 0 && already_read + n < min_bytes ==> a
            == ReadAction::ReadAt((already_read + n) as usize)),
{
    match outcome {
        Ok(n) => if n == 0 {
            ReadAction::Finish(already_read)
        } else {
            try_read_start(already_read + n, min_bytes)
        },
        Err(Errno::Interrupted) => ReadAction::ReadAt(already_read),
        Err(Errno::WouldBlock) => ReadAction::WaitReadable(already_read),
        Err(_) => ReadAction::Fail,
    }
}

/// What a write loop does next.
#[derive(Clone, Copy, Debug, PartialEq, Eq, Structural)]
pub enum WriteAction {
    /// Write the buffer from this offset on.
    WriteAt(usize),
    /// Stop: the whole buffer is written.
    Finish,
    /// Wait until the descriptor is writable, then go on with this many bytes written.
    WaitWritable(usize),
    /// Give up with the error that the write reported.
    Fail,
}

/// Where a write loop stands with `already_written` of `len` bytes written.
pub open spec fn write_start_spec(already_written: usize, len: usize) -> WriteAction {
    if already_written < len {
        WriteAction::WriteAt(already_written)
    } else {
        WriteAction::Finish
    }
}

/// What a write loop does after writing the buffer from `already_written` on.
pub open spec fn write_step_spec(
    already_written: usize,
    len: usize,
    outcome: Result<usize, Errno>,
) -> WriteAction {
    match outcome {
        Ok(n) => write_start_spec((already_written + n) as usize, len),
        Err(Errno::Interrupted) => WriteAction::WriteAt(already_written),
        Err(Errno::WouldBlock) => WriteAction::WaitWritable(already_written),
        Err(_) => WriteAction::Fail,
    }
}

/// Starts (or resumes) a write loop: write on while not all `len` bytes are out.
pub fn write_start(already_written: usize, len: usize) -> (a: WriteAction)
    ensures
        a == write_start_spec(already_written, len),
{
    if already_written < len {
        WriteAction::WriteAt(already_written)
    } else {
        WriteAction::Finish
    }
}

/// Takes in what a write of the last `len - already_written` bytes of a
/// buffer reported: a signal means write again; "would block" means wait
/// until writable.
pub fn write_step(already_written: usize, len: usize, outcome: Result<usize, Errno>) -> (a:
    WriteAction)
    requires
        already_written < len,
        outcome matches Ok(n) ==> n <= len - already_written,
    ensures
        a == write_step_spec(already_written, len, outcome),
        a matches WriteAction::WriteAt(k) ==> already_written <= k < len,
        a matches WriteAction::WaitWritable(k) ==> k == already_written,
        outcome matches Ok(n) ==> (already_written + n < len ==> a == WriteAction::WriteAt(
            (already_written + n) as usize,
        )),
        outcome matches Ok(n) ==> (already_written + n == len ==> a == WriteAction::Finish),
{
    match outcome {
        Ok(n) => write_start(already_written + n, len),
        Err(Errno::Interrupted) => WriteAction::WriteAt(already_written),
        Err(Errno::WouldBlock) => WriteAction::WaitWritable(already_written),
        Err(_) => WriteAction::Fail,
    }
}

/// What an accepting listener does next.
#[derive(Clone, Copy, Debug, PartialEq, Eq, Structural)]
pub enum AcceptAction {
    /// Register the accepted descriptor and hand out a stream for it.
    Register(i32),
    /// Accept again.
    Retry,
    /// Wait until the listener is readable, then accept again.
    WaitReadable,
    /// Give up with the error that `accept` reported.
    Fail,
}

/// Takes in what `accept` reported.
pub fn accept_step(outcome: Result<i32, Errno>) -> (a: AcceptAction)
    ensures
        a == match outcome {
            Ok(fd) => AcceptAction::Register(fd),
            Err(Errno::Interrupted) => AcceptAction::Retry,
            Err(Errno::WouldBlock) => AcceptAction::WaitReadable,
            Err(_) => AcceptAction::Fail,
        },
{
    match outcome {
        Ok(fd) => AcceptAction::Register(fd),
        Err(Errno::Interrupted) => AcceptAction::Retry,
        Err(Errno::WouldBlock) => AcceptAction::WaitReadable,
        Err(_) => AcceptAction::Fail,
    }
}

/// What a connecting socket does next.
#[derive(Clone, Copy, Debug, PartialEq, Eq, Structural)]
pub enum ConnectAction {
    /// Register the socket and wait until it is writable.
    Watch,
    /// Call `connect` again.
    Retry,
    /// Give up with the error that `connect` reported.
    Fail,
}

/// Takes in what `connect` on a nonblocking socket reported: a connection
/// in progress is watched like one made at once.
pub fn connect_step(outcome: Result<(), Errno>) -> (a: ConnectAction)
    ensures
        a == match outcome {
            Ok(()) => ConnectAction::Watch,
            Err(Errno::Interrupted) => ConnectAction::Retry,
            Err(Errno::InProgress) => ConnectAction::Watch,
            Err(_) => ConnectAction::Fail,
        },
{
    match outcome {
        Ok(()) => ConnectAction::Watch,
        Err(Errno::Interrupted) => ConnectAction::Retry,
        Err(Errno::InProgress) => ConnectAction::Watch,
        Err(_) => ConnectAction::Fail,
    }
}

/// What a socket that became writable after `connect` makes of its
/// pending error (`SO_ERROR`): connected when it is zero, else that error.
pub fn connect_result(so_error: i32) -> (r: Result<(), i32>)
    ensures
        r == if so_error == 0 {
            Ok::<(), i32>(())
        } else {
            Err::<(), i32>(so_error)
        },
{
    if so_error != 0 {
        Err(so_error)
    } else {
        Ok(())
    }
}

} // verus!
