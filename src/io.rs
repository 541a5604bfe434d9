//! The decisions of the stream adapters: what a host stream's answer means
//! for a read, a write, a flush or a splice, and the buffering of byte
//! streams.

use vstd::prelude::*;
use crate::frames::ReadOutcome;

verus! {

/// The kinds of I/O error the library reports.
#[derive(Clone, Copy, Debug, PartialEq, Eq, Structural)]
pub enum IoErrorKind {
    Other,
    PermissionDenied,
    Unsupported,
    InvalidInput,
    OutOfMemory,
    TimedOut,
    WouldBlock,
    InvalidData,
    AddrInUse,
    ConnectionRefused,
    ConnectionReset,
    ConnectionAborted,
    AlreadyExists,
}

/// An I/O error: its kind, and the host's description where there is one.
#[derive(Clone, Debug, PartialEq, Eq)]
pub struct IoError {
    pub kind: IoErrorKind,
    pub message: Option<String>,
}

impl IoError {
    pub fn from_kind(kind: IoErrorKind) -> (r: IoError)
        ensures
            r.kind == kind,
            r.message.is_none(),
    {
        IoError { kind, message: None }
    }

    /// An error of kind `Other` carrying the host's description.
    pub fn other(message: String) -> (r: IoError)
        ensures
            r.kind == IoErrorKind::Other,
            r.message == Some(message),
    {
        IoError { kind: IoErrorKind::Other, message: Some(message) }
    }
}

/// Why a host stream operation did not go through.
#[derive(Clone, Debug, PartialEq, Eq)]
pub enum StreamFailure {
    /// The stream is closed.
    Closed,
    /// The last operation failed, with the host's description.
    LastOperationFailed(String),
}

/// The error a failed write-side operation reports: a closed stream is a
/// reset connection, a failure carries the host's description.
pub open spec fn write_error_spec(f: StreamFailure) -> IoError {
    match f {
        StreamFailure::Closed => IoError { kind: IoErrorKind::ConnectionReset, message: None },
        StreamFailure::LastOperationFailed(m) => IoError {
            kind: IoErrorKind::Other,
            message: Some(m),
        },
    }
}

pub fn write_error(f: StreamFailure) -> (r: IoError)
    ensures
        r == write_error_spec(f),
{
    match f {
        StreamFailure::Closed => IoError::from_kind(IoErrorKind::ConnectionReset),
        StreamFailure::LastOperationFailed(m) => IoError::other(m),
    }
}

/// What a read does after the host answered.
#[derive(Clone, Debug, PartialEq, Eq)]
pub enum ReadStep {
    /// Nothing was there yet: wait for readiness and read again.
    Again,
    /// This many bytes were placed at the start of the buffer; zero means
    /// the end of the stream.
    Filled(usize),
    /// The read failed, with the host's description.
    Failed(String),
}

/// Places the host's answer to a read of `buf.len()` bytes into `buf`. An
/// empty answer is not the end of the stream: it asks for another read once
/// the stream is ready. A closed stream reads as zero bytes.
pub fn read_into(buf: &mut [u8], outcome: ReadOutcome) -> (r: ReadStep)
    requires
        outcome matches ReadOutcome::Bytes(b) ==> b@.len() <= old(buf)@.len(),
    ensures
        final(buf)@.len() == old(buf)@.len(),
        match outcome {
            ReadOutcome::Bytes(b) => if b@.len() == 0 {
                r == ReadStep::Again && final(buf)@ == old(buf)@
            } else {
                r == ReadStep::Filled(b@.len() as usize) && final(buf)@ == b@ + old(buf)@.subrange(
                    b@.len() as int,
                    old(buf)@.len() as int,
                )
            },
            ReadOutcome::Closed => r == ReadStep::Filled(0) && final(buf)@ == old(buf)@,
            ReadOutcome::Failed(m) => r == ReadStep::Failed(m) && final(buf)@ == old(buf)@,
        },
{
    match outcome {
        ReadOutcome::Bytes(b) => {
            if b.len() == 0 {
                return ReadStep::Again;
            }
            let n = b.len();
            let mut i: usize = 0;
            while i < n
                invariant
                    n == b@.len() <= buf@.len(),
                    buf@.len() == old(buf)@.len(),
                    i <= n,
                    forall|k: int| 0 <= k < i ==> buf@[k] == b@[k],
                    forall|k: int| n <= k < buf@.len() ==> buf@[k] == old(buf)@[k],
                decreases n - i,
            {
                buf[i] = b[i];
                i = i + 1;
            }
            assert(buf@ =~= b@ + old(buf)@.subrange(n as int, old(buf)@.len() as int));
            ReadStep::Filled(n)
        },
        ReadOutcome::Closed => ReadStep::Filled(0),
        ReadOutcome::Failed(m) => ReadStep::Failed(m),
    }
}

/// What a chunk stream yields after the host answered.
#[derive(Clone, Debug, PartialEq, Eq)]
pub enum ChunkStep {
    /// Nothing yet: stay pending.
    Pending,
    /// A chunk of bytes.
    Chunk(Vec<u8>),
    /// The read failed, with the host's description.
    Failed(String),
    /// The stream is over.
    End,
}

/// The item of a chunk stream for the host's answer to a read.
pub fn chunk_step(outcome: ReadOutcome) -> (r: ChunkStep)
    ensures
        match outcome {
            ReadOutcome::Bytes(b) => if b@.len() == 0 {
                r == ChunkStep::Pending
            } else {
                r == ChunkStep::Chunk(b)
            },
            ReadOutcome::Closed => r == ChunkStep::End,
            ReadOutcome::Failed(m) => r == ChunkStep::Failed(m),
        },
{
    match outcome {
        ReadOutcome::Bytes(b) => if b.len() == 0 {
            ChunkStep::Pending
        } else {
            ChunkStep::Chunk(b)
        },
        ReadOutcome::Closed => ChunkStep::End,
        ReadOutcome::Failed(m) => ChunkStep::Failed(m),
    }
}

/// The chunk size of a chunk stream made without one.
pub const DEFAULT_CHUNK_SIZE: usize = 8192;

/// The bytes of a chunk that a byte stream has still to yield.
#[derive(Clone, Debug)]
pub struct ByteBuffer {
    bytes: Vec<u8>,
    pos: usize,
}

impl ByteBuffer {
    pub closed spec fn view(&self) -> Seq<u8> {
        self.bytes@.subrange(self.pos as int, self.bytes@.len() as int)
    }

    pub closed spec fn wf(&self) -> bool {
        self.pos <= self.bytes@.len()
    }

    pub fn new() -> (r: ByteBuffer)
        ensures
            r.wf(),
            r@ == Seq::<u8>::empty(),
    {
        ByteBuffer { bytes: Vec::new(), pos: 0 }
    }

    /// The next buffered byte, if any.
    pub fn next(&mut self) -> (r: Option<u8>)
        requires
            old(self).wf(),
        ensures
            final(self).wf(),
            old(self)@.len() == 0 ==> r.is_none() && final(self)@ == old(self)@,
            old(self)@.len() > 0 ==> r == Some(old(self)@[0]) && final(self)@ == old(self)@.subrange(
                1,
                old(self)@.len() as int,
            ),
    {
        if self.pos < self.bytes.len() {
            let b = self.bytes[self.pos];
            self.pos = self.pos + 1;
            assert(self@ =~= old(self)@.subrange(1, old(self)@.len() as int));
            Some(b)
        } else {
            None
        }
    }

    /// Takes a fresh chunk, read once the buffer is empty: its first byte is
    /// yielded now, the rest buffered.
    pub fn refill(&mut self, chunk: Vec<u8>) -> (r: Option<u8>)
        requires
            old(self).wf(),
            old(self)@.len() == 0,
        ensures
            final(self).wf(),
            chunk@.len() == 0 ==> r.is_none() && final(self)@ == Seq::<u8>::empty(),
            chunk@.len() > 0 ==> r == Some(chunk@[0]) && final(self)@ == chunk@.subrange(
                1,
                chunk@.len() as int,
            ),
    {
        self.bytes = chunk;
        self.pos = 0;
        assert(self@ =~= chunk@);
        self.next()
    }

    /// The bytes not yet yielded.
    pub fn into_remaining(self) -> (r: Vec<u8>)
        requires
            self.wf(),
        ensures
            r@ == self@,
    {
        let mut out: Vec<u8> = Vec::new();
        let mut i: usize = self.pos;
        while i < self.bytes.len()
            invariant
                self.pos <= i <= self.bytes@.len(),
                out@ == self.bytes@.subrange(self.pos as int, i as int),
            decreases self.bytes@.len() - i,
        {
            out.push(self.bytes[i]);
            i = i + 1;
            assert(out@ =~= self.bytes@.subrange(self.pos as int, i as int));
        }
        out
    }
}

/// What a write does after asking the host how much it takes.
#[derive(Clone, Debug, PartialEq, Eq)]
pub enum WriteStep {
    /// The host takes nothing now: wait for readiness and ask again.
    AwaitReady,
    /// Write the first this-many bytes of the buffer.
    Write(usize),
    /// Report this error.
    Failed(IoError),
}

/// The part of a buffer of `len` bytes that one write hands the host, given
/// the host's answer to `check_write`: as much as it takes, up to the whole.
pub fn write_step(check: Result<u64, StreamFailure>, len: usize) -> (r: WriteStep)
    ensures
        match check {
            Ok(k) => if k == 0 {
                r == WriteStep::AwaitReady
            } else {
                r == WriteStep::Write(if k < len { k as usize } else { len })
            },
            Err(f) => r == WriteStep::Failed(write_error_spec(f)),
        },
{
    match check {
        Ok(k) => {
            if k == 0 {
                WriteStep::AwaitReady
            } else if k < len as u64 {
                WriteStep::Write(k as usize)
            } else {
                WriteStep::Write(len)
            }
        },
        Err(f) => WriteStep::Failed(write_error(f)),
    }
}

/// The result of a write of `n` bytes after the host's answer.
pub fn write_result(r: Result<(), StreamFailure>, n: usize) -> (out: Result<usize, IoError>)
    ensures
        match r {
            Ok(()) => out == Ok::<usize, IoError>(n),
            Err(f) => out == Err::<usize, IoError>(write_error_spec(f)),
        },
{
    match r {
        Ok(()) => Ok(n),
        Err(f) => Err(write_error(f)),
    }
}

/// The result of starting a flush: on success the flush is then awaited.
pub fn flush_result(r: Result<(), StreamFailure>) -> (out: Result<(), IoError>)
    ensures
        match r {
            Ok(()) => out == Ok::<(), IoError>(()),
            Err(f) => out == Err::<(), IoError>(write_error_spec(f)),
        },
{
    match r {
        Ok(()) => Ok(()),
        Err(f) => Err(write_error(f)),
    }
}

/// Where `write_all` stands in its buffer.
#[derive(Clone, Copy, Debug, PartialEq, Eq, Structural)]
pub struct WriteAllProgress {
    pub offset: usize,
    pub len: usize,
}

impl WriteAllProgress {
    pub open spec fn wf(self) -> bool {
        self.offset <= self.len
    }

    pub fn new(len: usize) -> (r: WriteAllProgress)
        ensures
            r.wf(),
            r.offset == 0,
            r.len == len,
    {
        WriteAllProgress { offset: 0, len }
    }

    /// Counts a write of `written` bytes taken from the front of what is
    /// left, and says whether the buffer is drained.
    pub fn advance(&mut self, written: usize) -> (done: bool)
        requires
            old(self).wf(),
            written <= old(self).len - old(self).offset,
        ensures
            final(self).wf(),
            final(self).len == old(self).len,
            final(self).offset == old(self).offset + written,
            done == (final(self).offset == final(self).len),
    {
        self.offset = self.offset + written;
        self.offset == self.len
    }
}

/// What a splice loop does after the host answered one splice.
#[derive(Clone, Debug, PartialEq, Eq)]
pub enum SpliceStep {
    /// Bytes moved: wait for both streams and splice again.
    Continue,
    /// The source closed: this many bytes moved in all.
    Done(u64),
    /// The splice failed, with the host's description.
    Failed(String),
}

/// The running count of bytes a splice loop has moved.
#[derive(Clone, Copy, Debug, PartialEq, Eq, Structural)]
pub struct SpliceCount {
    pub written: u64,
}

impl SpliceCount {
    pub fn new() -> (r: SpliceCount)
        ensures
            r.written == 0,
    {
        SpliceCount { written: 0 }
    }

    /// Takes the host's answer to one splice.
    pub fn on_splice(&mut self, r: Result<u64, StreamFailure>) -> (step: SpliceStep)
        requires
            r matches Ok(n) ==> old(self).written + n <= u64::MAX,
        ensures
            match r {
                Ok(n) => final(self).written == old(self).written + n && step == SpliceStep::Continue,
                Err(StreamFailure::Closed) => *final(self) == *old(self) && step == SpliceStep::Done(
                    old(self).written,
                ),
                Err(StreamFailure::LastOperationFailed(m)) => *final(self) == *old(self) && step
                    == SpliceStep::Failed(m),
            },
    {
        match r {
            Ok(n) => {
                self.written = self.written + n;
                SpliceStep::Continue
            },
            Err(StreamFailure::Closed) => SpliceStep::Done(self.written),
            Err(StreamFailure::LastOperationFailed(m)) => SpliceStep::Failed(m),
        }
    }
}

/// The sum of the splice counts.
pub open spec fn sum_of(ns: Seq<u64>) -> nat
    decreases ns.len(),
{
    if ns.len() == 0 {
        0
    } else {
        sum_of(ns.drop_last()) + ns.last() as nat
    }
}

/// The count a splice loop holds after taking the splices `ns` one by one,
/// from `start`, as `on_splice` adds them.
pub open spec fn count_after(start: nat, ns: Seq<u64>) -> nat
    decreases ns.len(),
{
    if ns.len() == 0 {
        start
    } else {
        count_after(start + ns[0] as nat, ns.subrange(1, ns.len() as int))
    }
}

proof fn lemma_sum_of_front(ns: Seq<u64>)
    requires
        ns.len() > 0,
    ensures
        sum_of(ns) == ns[0] + sum_of(ns.subrange(1, ns.len() as int)),
    decreases ns.len(),
{
    if ns.len() > 1 {
        let t = ns.subrange(1, ns.len() as int);
        lemma_sum_of_front(ns.drop_last());
        assert(ns.drop_last().subrange(1, ns.len() - 1) =~= t.drop_last());
    } else {
        assert(ns.drop_last() =~= Seq::<u64>::empty());
        assert(ns.subrange(1, ns.len() as int) =~= Seq::<u64>::empty());
    }
}

/// A splice loop reports all it moved: taking the splices `ns` from a zero
/// count, the count the close reports is their sum.
pub proof fn lemma_splice_total(start: nat, ns: Seq<u64>)
    ensures
        count_after(start, ns) == start + sum_of(ns),
    decreases ns.len(),
{
    if ns.len() > 0 {
        lemma_sum_of_front(ns);
        lemma_splice_total(start + ns[0] as nat, ns.subrange(1, ns.len() as int));
    }
}

/// A reader that is always at its end and a writer that takes everything.
#[derive(Clone, Copy, Debug, PartialEq, Eq, Structural)]
pub struct Empty;

/// A value that is always at its end for reads and takes and drops all that
/// is written to it.
pub fn empty() -> (r: Empty) {
    Empty
}

impl Empty {
    pub fn read(&mut self, buf: &mut [u8]) -> (r: Result<usize, IoError>)
        ensures
            r == Ok::<usize, IoError>(0),
            final(buf)@ == old(buf)@,
    {
        Ok(0)
    }

    pub fn write(&mut self, buf: &[u8]) -> (r: Result<usize, IoError>)
        ensures
            r == Ok::<usize, IoError>(buf@.len() as usize),
    {
        Ok(buf.len())
    }

    pub fn flush(&mut self) -> (r: Result<(), IoError>)
        ensures
            r == Ok::<(), IoError>(()),
    {
        Ok(())
    }
}

} // verus!
