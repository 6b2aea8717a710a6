use gjio::io::{
    accept_step, check_read_count, connect_result, connect_step, should_retry, try_read_start,
    try_read_step, write_start, write_step, AcceptAction, ConnectAction, Errno, ReadAction,
    ReadError, WriteAction,
};

#[test]
fn read_with_enough_bytes_succeeds() {
    assert_eq!(check_read_count(5, 5), Ok(5));
    assert_eq!(check_read_count(7, 5), Ok(7));
    assert_eq!(check_read_count(0, 0), Ok(0));
}

#[test]
fn read_that_ends_early_is_premature_eof() {
    assert_eq!(check_read_count(4, 5), Err(ReadError::PrematureEof));
    assert_eq!(ReadError::PrematureEof.message(), "Premature EOF");
}

#[test]
fn read_starts_only_when_bytes_are_missing() {
    assert_eq!(try_read_start(0, 1), ReadAction::ReadAt(0));
    assert_eq!(try_read_start(3, 3), ReadAction::Finish(3));
    assert_eq!(try_read_start(0, 0), ReadAction::Finish(0));
}

#[test]
fn read_steps() {
    assert_eq!(try_read_step(2, 5, 10, Ok(0)), ReadAction::Finish(2));
    assert_eq!(try_read_step(2, 5, 10, Ok(2)), ReadAction::ReadAt(4));
    assert_eq!(try_read_step(2, 5, 10, Ok(3)), ReadAction::Finish(5));
    assert_eq!(try_read_step(2, 5, 10, Ok(8)), ReadAction::Finish(10));
    assert_eq!(try_read_step(2, 5, 10, Err(Errno::Interrupted)), ReadAction::ReadAt(2));
    assert_eq!(try_read_step(2, 5, 10, Err(Errno::WouldBlock)), ReadAction::WaitReadable(2));
    assert_eq!(try_read_step(2, 5, 10, Err(Errno::Other(104))), ReadAction::Fail);
    assert_eq!(try_read_step(2, 5, 10, Err(Errno::InProgress)), ReadAction::Fail);
}

#[test]
fn read_into_a_full_small_buffer_ends_at_its_length() {
    // Fewer bytes fit than were asked for: the empty read at the end stops the loop.
    assert_eq!(try_read_step(0, 10, 4, Ok(4)), ReadAction::ReadAt(4));
    assert_eq!(try_read_step(4, 10, 4, Ok(0)), ReadAction::Finish(4));
}

#[test]
fn write_steps() {
    assert_eq!(write_start(0, 0), WriteAction::Finish);
    assert_eq!(write_start(0, 3), WriteAction::WriteAt(0));
    assert_eq!(write_step(0, 3, Ok(3)), WriteAction::Finish);
    assert_eq!(write_step(0, 3, Ok(1)), WriteAction::WriteAt(1));
    assert_eq!(write_step(1, 3, Ok(0)), WriteAction::WriteAt(1));
    assert_eq!(write_step(1, 3, Err(Errno::Interrupted)), WriteAction::WriteAt(1));
    assert_eq!(write_step(1, 3, Err(Errno::WouldBlock)), WriteAction::WaitWritable(1));
    assert_eq!(write_step(1, 3, Err(Errno::Other(32))), WriteAction::Fail);
}

#[test]
fn accept_steps() {
    assert_eq!(accept_step(Ok(9)), AcceptAction::Register(9));
    assert_eq!(accept_step(Err(Errno::Interrupted)), AcceptAction::Retry);
    assert_eq!(accept_step(Err(Errno::WouldBlock)), AcceptAction::WaitReadable);
    assert_eq!(accept_step(Err(Errno::Other(24))), AcceptAction::Fail);
}

#[test]
fn connect_steps() {
    assert_eq!(connect_step(Ok(())), ConnectAction::Watch);
    assert_eq!(connect_step(Err(Errno::InProgress)), ConnectAction::Watch);
    assert_eq!(connect_step(Err(Errno::Interrupted)), ConnectAction::Retry);
    assert_eq!(connect_step(Err(Errno::WouldBlock)), ConnectAction::Fail);
    assert_eq!(connect_step(Err(Errno::Other(111))), ConnectAction::Fail);
}

#[test]
fn connect_results() {
    assert_eq!(connect_result(0), Ok(()));
    assert_eq!(connect_result(111), Err(111));
}

#[test]
fn only_interrupted_calls_are_retried() {
    assert!(should_retry(Errno::Interrupted));
    assert!(!should_retry(Errno::WouldBlock));
    assert!(!should_retry(Errno::InProgress));
    assert!(!should_retry(Errno::Other(4)));
}
