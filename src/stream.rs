//! Non-blocking adapters over the sandbox's byte streams. A read returns what
//! is available now, or says that nothing is; a write is only reported once
//! every byte of it has been written and flushed.
use vstd::prelude::*;
use wasip2::io::error::Error;
use wasip2::io::streams::{InputStream, OutputStream, StreamError};

verus! {

#[verifier::external_type_specification]
#[verifier::external_body]
pub struct ExInputStream(InputStream);

#[verifier::external_type_specification]
#[verifier::external_body]
pub struct ExOutputStream(OutputStream);

#[verifier::external_type_specification]
#[verifier::external_body]
pub struct ExError(Error);

/// Largest span the sandbox accepts in one blocking write-and-flush.
pub const MAX_BLOCKING_WRITE: usize = 4096;

/// Why a stream operation did not go through.
#[derive(Debug)]
pub enum StreamFault {
    /// The operation failed; the stream is closed from now on.
    Failed(Error),
    /// The stream is closed: end of input, or an output nobody reads.
    Closed,
}

/// The outcome of one attempt to read.
#[derive(Debug)]
pub enum ReadPoll {
    /// This many bytes, at least one, were placed at the start of the buffer.
    Ready(usize),
    /// The stream is open but holds no bytes yet: try again later.
    Pending,
    /// The stream has ended.
    Eof,
    /// The read failed.
    Failed(Error),
}

/// Relies on wasip2's `InputStream::read`: it never blocks, and a successful
/// read returns at most `len` bytes (none when nothing is available yet).
#[verifier::external_body]
fn read_available(stream: &InputStream, len: u64) -> (r: Result<Vec<u8>, StreamFault>)
    ensures
        r matches Ok(bytes) ==> bytes@.len() <= len,
{
    match stream.read(len) {
        Ok(bytes) => Ok(bytes),
        Err(StreamError::LastOperationFailed(e)) => Err(StreamFault::Failed(e)),
        Err(StreamError::Closed) => Err(StreamFault::Closed),
    }
}

/// What `complete_read` reports for the outcome of a read.
pub open spec fn read_poll_of(outcome: Result<Vec<u8>, StreamFault>) -> ReadPoll {
    match outcome {
        Ok(bytes) => if bytes@.len() == 0 {
            ReadPoll::Pending
        } else {
            ReadPoll::Ready(bytes@.len() as usize)
        },
        Err(StreamFault::Closed) => ReadPoll::Eof,
        Err(StreamFault::Failed(e)) => ReadPoll::Failed(e),
    }
}

/// The buffer after `complete_read`: the bytes read, followed by what the
/// buffer held beyond them.
pub open spec fn buffer_after_read(outcome: Result<Vec<u8>, StreamFault>, buf: Seq<u8>) -> Seq<u8> {
    match outcome {
        Ok(bytes) => bytes@ + buf.subrange(bytes@.len() as int, buf.len() as int),
        Err(_) => buf,
    }
}

/// Turns the outcome of a non-blocking read into the adapter's report: bytes
/// are copied to the front of `buf`; no bytes on an open stream is `Pending`,
/// which is not the end of the stream; a closed stream is `Eof`.
pub fn complete_read(outcome: Result<Vec<u8>, StreamFault>, buf: &mut [u8]) -> (r: ReadPoll)
    requires
        outcome matches Ok(bytes) ==> bytes@.len() <= old(buf)@.len(),
    ensures
        r == read_poll_of(outcome),
        final(buf)@ == buffer_after_read(outcome, old(buf)@),
{
    match outcome {
        Ok(bytes) => {
            let n: usize = bytes.len();
            if n == 0 {
                return ReadPoll::Pending;
            }
            let ghost before = buf@;
            let mut k: usize = 0;
            while k < n
                invariant
                    n == bytes@.len(),
                    n <= before.len(),
                    k <= n,
                    buf@.len() == before.len(),
                    forall|j: int| 0 <= j < k ==> buf@[j] == bytes@[j],
                    forall|j: int| n <= j < before.len() ==> buf@[j] == before[j],
                decreases n - k,
            {
                buf[k] = bytes[k];
                k = k + 1;
            }
            assert(buf@ =~= bytes@ + before.subrange(n as int, before.len() as int));
            ReadPoll::Ready(n)
        },
        Err(StreamFault::Closed) => ReadPoll::Eof,
        Err(StreamFault::Failed(e)) => ReadPoll::Failed(e),
    }
}

/// Where the span of a write that starts at `pos`, in a buffer of `len`
/// bytes, ends: `MAX_BLOCKING_WRITE` bytes on, or at the end of the buffer.
pub open spec fn span_end(pos: nat, len: nat) -> nat {
    if len - pos <= MAX_BLOCKING_WRITE as int {
        len
    } else {
        pos + MAX_BLOCKING_WRITE as nat
    }
}

/// The end of the span that a write starting at `pos` hands to the sandbox
/// at once.
pub fn chunk_end(pos: usize, len: usize) -> (r: usize)
    requires
        pos <= len,
    ensures
        r == span_end(pos as nat, len as nat),
{
    if len - pos <= MAX_BLOCKING_WRITE {
        len
    } else {
        pos + MAX_BLOCKING_WRITE
    }
}

/// The guest's standard input, read without blocking.
pub struct Wasip2Stdin {
    stream: InputStream,
}

impl Wasip2Stdin {
    pub fn new(stream: InputStream) -> Self {
        Wasip2Stdin { stream }
    }

    /// Reads what is available now into `buf`, at most its length.
    pub fn poll_read(&self, buf: &mut [u8]) -> (r: ReadPoll)
        ensures
            final(buf)@.len() == old(buf)@.len(),
            r matches ReadPoll::Ready(n) ==> 0 < n <= old(buf)@.len()
                && final(buf)@.subrange(n as int, old(buf)@.len() as int)
                == old(buf)@.subrange(n as int, old(buf)@.len() as int),
            !(r is Ready) ==> final(buf)@ == old(buf)@,
    {
        let outcome = read_available(&self.stream, buf.len() as u64);
        complete_read(outcome, buf)
    }
}

/// An output stream, with the bytes committed to it so far: written and
/// flushed, in order.
pub struct CommittedOutput {
    stream: OutputStream,
    sent: Ghost<Seq<u8>>,
}

impl CommittedOutput {
    pub closed spec fn sent(&self) -> Seq<u8> {
        self.sent@
    }

    fn new(stream: OutputStream) -> (r: Self)
        ensures
            r.sent() == Seq::<u8>::empty(),
    {
        CommittedOutput { stream, sent: Ghost(Seq::empty()) }
    }

    /// Relies on wasip2's `OutputStream::blocking_write_and_flush`: it writes
    /// `buf[start..end]`, at most 4096 bytes, and returns success only once
    /// all of it is written and flushed.
    #[verifier::external_body]
    fn write_span(&mut self, buf: &[u8], start: usize, end: usize) -> (r: Result<(), StreamFault>)
        requires
            start <= end <= buf@.len(),
            end - start <= MAX_BLOCKING_WRITE,
        ensures
            r is Ok ==> final(self).sent() == old(self).sent() + buf@.subrange(start as int, end as int),
    {
        match self.stream.blocking_write_and_flush(&buf[start..end]) {
            Ok(()) => Ok(()),
            Err(StreamError::LastOperationFailed(e)) => Err(StreamFault::Failed(e)),
            Err(StreamError::Closed) => Err(StreamFault::Closed),
        }
    }

    /// Relies on wasip2's `OutputStream::blocking_flush`: it returns once all
    /// output written so far is flushed, or an error occurred. It writes no
    /// bytes of its own.
    #[verifier::external_body]
    fn flush(&self) -> (r: Result<(), StreamFault>) {
        match self.stream.blocking_flush() {
            Ok(()) => Ok(()),
            Err(StreamError::LastOperationFailed(e)) => Err(StreamFault::Failed(e)),
            Err(StreamError::Closed) => Err(StreamFault::Closed),
        }
    }
}

/// The guest's standard output; each write is committed whole. Closing it
/// lets go of the stream, which ends the channel for the reader.
pub struct Wasip2Stdout {
    out: Option<CommittedOutput>,
    sent_before_close: Ghost<Seq<u8>>,
}

impl Wasip2Stdout {
    /// The bytes committed to the channel so far.
    pub closed spec fn sent(&self) -> Seq<u8> {
        match self.out {
            Some(o) => o.sent(),
            None => self.sent_before_close@,
        }
    }

    pub closed spec fn is_closed(&self) -> bool {
        self.out is None
    }

    pub fn new(stream: OutputStream) -> (r: Self)
        ensures
            !r.is_closed(),
            r.sent() == Seq::<u8>::empty(),
    {
        Wasip2Stdout { out: Some(CommittedOutput::new(stream)), sent_before_close: Ghost(Seq::empty()) }
    }

    /// Writes and flushes all of `buf`, in spans the sandbox accepts, before
    /// reporting. Success reports the whole length, and the channel has then
    /// received exactly `buf` after what it held: a frame is never reported
    /// as sent while part of it is not. A closed adapter writes nothing.
    pub fn poll_write(&mut self, buf: &[u8]) -> (r: Result<usize, StreamFault>)
        ensures
            r is Ok ==> r->Ok_0 == buf@.len() && final(self).sent() == old(self).sent() + buf@,
            buf@.len() == 0 ==> r == Ok::<usize, StreamFault>(0) && final(self).sent() == old(self).sent(),
            old(self).is_closed() && buf@.len() > 0 ==> r matches Err(StreamFault::Closed),
            final(self).is_closed() == old(self).is_closed(),
    {
        let len: usize = buf.len();
        if len == 0 {
            return Ok(0);
        }
        let mut out = match self.out.take() {
            None => {
                return Err(StreamFault::Closed);
            },
            Some(out) => out,
        };
        let ghost before = out.sent();
        let mut pos: usize = 0;
        while pos < len
            invariant
                len == buf@.len(),
                pos <= len,
                !old(self).is_closed(),
                out.sent() == before + buf@.subrange(0, pos as int),
            decreases len - pos,
        {
            let end: usize = chunk_end(pos, len);
            match out.write_span(buf, pos, end) {
                Ok(()) => {},
                Err(e) => {
                    self.out = Some(out);
                    return Err(e);
                },
            }
            assert(buf@.subrange(0, pos as int) + buf@.subrange(pos as int, end as int)
                =~= buf@.subrange(0, end as int));
            pos = end;
        }
        assert(buf@.subrange(0, len as int) =~= buf@);
        self.out = Some(out);
        Ok(len)
    }

    /// Blocks until everything written so far is flushed; nothing is left to
    /// flush once the adapter is closed.
    pub fn poll_flush(&self) -> (r: Result<(), StreamFault>)
        ensures
            self.is_closed() ==> r is Ok,
    {
        match &self.out {
            Some(out) => out.flush(),
            None => Ok(()),
        }
    }

    /// Flushes, then lets go of the stream, which ends the channel: the reader
    /// sees what was committed, then end-of-stream. Closing again does nothing.
    pub fn poll_close(&mut self) -> (r: Result<(), StreamFault>)
        ensures
            final(self).is_closed(),
            final(self).sent() == old(self).sent(),
            old(self).is_closed() ==> r is Ok,
    {
        match self.out.take() {
            None => Ok(()),
            Some(out) => {
                let r = out.flush();
                self.sent_before_close = Ghost(out.sent());
                r
            },
        }
    }
}

} // verus!
