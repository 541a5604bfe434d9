use wstd::frames::ReadOutcome;
use wstd::io::{
    chunk_step, empty, flush_result, read_into, write_result, write_step, ByteBuffer, ChunkStep,
    IoError, IoErrorKind, ReadStep, SpliceCount, SpliceStep, StreamFailure, WriteAllProgress,
    WriteStep,
};
use wstd::runtime::{BlockOnGuard, DriverAction, Reactor};

#[test]
fn read_places_bytes_and_maps_eof() {
    let mut buf = [9u8; 4];
    assert_eq!(read_into(&mut buf, ReadOutcome::Bytes(vec![1, 2])), ReadStep::Filled(2));
    assert_eq!(buf, [1, 2, 9, 9]);
    assert_eq!(read_into(&mut buf, ReadOutcome::Bytes(vec![])), ReadStep::Again);
    assert_eq!(read_into(&mut buf, ReadOutcome::Closed), ReadStep::Filled(0));
    assert_eq!(
        read_into(&mut buf, ReadOutcome::Failed("bad".to_string())),
        ReadStep::Failed("bad".to_string())
    );
    assert_eq!(buf, [1, 2, 9, 9]);
}

#[test]
fn chunk_steps() {
    assert_eq!(chunk_step(ReadOutcome::Bytes(vec![])), ChunkStep::Pending);
    assert_eq!(chunk_step(ReadOutcome::Bytes(vec![3])), ChunkStep::Chunk(vec![3]));
    assert_eq!(chunk_step(ReadOutcome::Closed), ChunkStep::End);
}

#[test]
fn byte_buffer_yields_in_order() {
    let mut b = ByteBuffer::new();
    assert_eq!(b.next(), None);
    assert_eq!(b.refill(vec![4, 5, 6]), Some(4));
    assert_eq!(b.next(), Some(5));
    assert_eq!(b.clone().into_remaining(), vec![6]);
    assert_eq!(b.next(), Some(6));
    assert_eq!(b.next(), None);
    assert_eq!(b.refill(vec![]), None);
}

#[test]
fn write_steps() {
    assert_eq!(write_step(Ok(0), 10), WriteStep::AwaitReady);
    assert_eq!(write_step(Ok(4), 10), WriteStep::Write(4));
    assert_eq!(write_step(Ok(40), 10), WriteStep::Write(10));
    assert_eq!(
        write_step(Err(StreamFailure::Closed), 10),
        WriteStep::Failed(IoError::from_kind(IoErrorKind::ConnectionReset))
    );
    assert_eq!(
        write_result(Err(StreamFailure::LastOperationFailed("x".to_string())), 3),
        Err(IoError::other("x".to_string()))
    );
    assert_eq!(write_result(Ok(()), 3), Ok(3));
    assert_eq!(flush_result(Ok(())), Ok(()));
    assert_eq!(
        flush_result(Err(StreamFailure::Closed)),
        Err(IoError::from_kind(IoErrorKind::ConnectionReset))
    );
}

#[test]
fn write_all_progress() {
    let mut p = WriteAllProgress::new(5);
    assert!(!p.advance(2));
    assert_eq!(p.offset, 2);
    assert!(p.advance(3));
}

#[test]
fn splice_counts_everything() {
    let mut c = SpliceCount::new();
    assert_eq!(c.on_splice(Ok(10)), SpliceStep::Continue);
    assert_eq!(c.on_splice(Ok(0)), SpliceStep::Continue);
    assert_eq!(c.on_splice(Ok(5)), SpliceStep::Continue);
    assert_eq!(c.on_splice(Err(StreamFailure::Closed)), SpliceStep::Done(15));
    assert_eq!(
        c.on_splice(Err(StreamFailure::LastOperationFailed("e".to_string()))),
        SpliceStep::Failed("e".to_string())
    );
}

#[test]
fn empty_reader_writer() {
    let mut e = empty();
    let mut buf = [0u8; 3];
    assert_eq!(e.read(&mut buf), Ok(0));
    assert_eq!(e.write(b"abc"), Ok(3));
    assert_eq!(e.flush(), Ok(()));
}

#[test]
fn reactor_wakes_in_order() {
    let mut r = Reactor::new();
    let a = r.schedule();
    let b = r.schedule();
    assert_ne!(a, b);
    r.register_waiter(a, 1);
    r.register_waiter(b, 2);
    r.register_waiter(a, 3);
    assert_eq!(r.pending_keys(), vec![a, b]);
    assert!(!r.pending_pollables_is_empty());
    assert_eq!(r.next_action(), DriverAction::BlockOnPollables);
    r.wake_ready(&vec![b, a]);
    assert!(r.pending_pollables_is_empty());
    assert_eq!(r.next_action(), DriverAction::Run(2));
    assert!(r.should_check_pollables(false));
    assert_eq!(r.next_action(), DriverAction::Run(1));
    assert_eq!(r.pop_ready(), Some(3));
    assert!(!r.should_check_pollables(false));
    assert!(r.should_check_pollables(true));
    r.deregister(a);
    r.register_waiter(a, 4);
    assert!(r.pending_pollables_is_empty());
    assert_eq!(r.next_action(), DriverAction::Finish);
}

#[test]
fn block_on_refuses_reentry() {
    let mut g = BlockOnGuard::new();
    assert!(g.enter());
    assert!(!g.enter());
    g.exit();
    assert!(g.enter());
}
