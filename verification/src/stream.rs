//! A byte stream that an IMAP protocol state is driven over.
//!
//! Driving is a loop of three kinds of work: progressing the state, writing
//! what it produced, and reading what it needs. The I/O is the caller's; the
//! decisions between the steps are made here.
use vstd::prelude::*;


verus! {

/// The read buffer's size unless another is asked for.
pub const DEFAULT_CAPACITY: usize = 1024;

/// A stream, and the buffer that reads from it go to.
pub struct Stream<S> {
    stream: S,
    buf: Vec<u8>,
}

/// Error during reading into or writing from a stream.
#[derive(Debug)]
pub enum Error<E, I> {
    /// Operation failed because stream is closed.
    ///
    /// We detect this by checking if the read or written byte count is 0.
    /// Whether the stream is closed indefinitely or temporarily depends on the
    /// actual stream implementation.
    Closed,
    /// An I/O error occurred in the underlying stream.
    Io(I),
    /// An error occurred while progressing the state.
    State(E),
}

/// What progressing the protocol state gave.
pub enum Progress<Ev, E> {
    /// An event: it is returned without any I/O.
    Event(Ev),
    /// Bytes that must be written.
    Output(Vec<u8>),
    /// More bytes must be read.
    NeedMoreInput,
    /// The state failed: the error is returned without any I/O.
    Failed(E),
}

/// What the driver does next.
pub enum Step<Ev, E, I> {
    /// Stop with this result.
    Return(Result<Ev, Error<E, I>>),
    /// Write these bytes, then read.
    Write(Vec<u8>),
    /// Read.
    Read,
}

impl<S> Stream<S> {
    /// The wrapped stream.
    pub closed spec fn inner(self) -> S {
        self.stream
    }

    /// The read buffer.
    pub closed spec fn buffer(self) -> Seq<u8> {
        self.buf@
    }

    /// A stream with a read buffer of [`DEFAULT_CAPACITY`] bytes.
    pub fn new(stream: S) -> (r: Self)
        ensures
            r.inner() == stream,
            r.buffer() == Seq::new(1024, |i: int| 0u8),
    {
        Self::with_capacity(DEFAULT_CAPACITY, stream)
    }

    /// A stream with a read buffer of `capacity` zero bytes.
    pub fn with_capacity(capacity: usize, stream: S) -> (r: Self)
        ensures
            r.inner() == stream,
            r.buffer() == Seq::new(capacity as nat, |i: int| 0u8),
    {
        let mut buf: Vec<u8> = Vec::new();
        let mut i: usize = 0;
        while i < capacity
            invariant
                i <= capacity,
                buf@ == Seq::new(i as nat, |k: int| 0u8),
            decreases capacity - i,
        {
            buf.push(0);
            i = i + 1;
        }
        Self { stream, buf }
    }

    pub fn get_ref(&self) -> (r: &S)
        ensures
            *r == self.inner(),
    {
        &self.stream
    }

    pub fn get_mut(&mut self) -> (r: &mut S)
        ensures
            *r == old(self).inner(),
            final(self).inner() == *final(r),
            final(self).buffer() == old(self).buffer(),
    {
        &mut self.stream
    }

    /// The stream and the read buffer, to read into it.
    pub fn parts_mut(&mut self) -> (r: (&mut S, &mut [u8]))
        ensures
            *r.0 == old(self).inner(),
            r.1@ == old(self).buffer(),
            final(self).inner() == *final(r.0),
            final(self).buffer() == final(r.1)@,
    {
        (&mut self.stream, self.buf.as_mut_slice())
    }

    pub fn into_inner(self) -> (r: S)
        ensures
            r == self.inner(),
    {
        self.stream
    }

    /// The size of the read buffer.
    pub fn capacity(&self) -> (r: usize)
        ensures
            r == self.buffer().len(),
    {
        self.buf.len()
    }

    /// After a read of `count` bytes into the buffer: none means the stream
    /// is closed; otherwise the bytes read, to hand to the state.
    pub fn on_read<E, I>(&self, count: usize) -> (r: Result<&[u8], Error<E, I>>)
        requires
            count <= self.buffer().len(),
        ensures
            count == 0 ==> r matches Err(Error::Closed),
            count > 0 ==> (r matches Ok(b) && b@ == self.buffer().subrange(0, count as int)),
    {
        if count == 0 {
            Err(Error::Closed)
        } else {
            Ok(vstd::slice::slice_subrange(self.buf.as_slice(), 0, count))
        }
    }
}

/// What follows a step of the protocol state: an event or an error is
/// returned at once; output is written; otherwise the driver reads.
pub fn on_progress<Ev, E, I>(p: Progress<Ev, E>) -> (r: Step<Ev, E, I>)
    ensures
        match p {
            Progress::Event(ev) => r == Step::<Ev, E, I>::Return(Ok(ev)),
            Progress::Failed(e) => r == Step::<Ev, E, I>::Return(Err(Error::State(e))),
            Progress::Output(bytes) => r == Step::<Ev, E, I>::Write(bytes),
            Progress::NeedMoreInput => r == Step::<Ev, E, I>::Read,
        },
{
    match p {
        Progress::Event(ev) => Step::Return(Ok(ev)),
        Progress::Failed(e) => Step::Return(Err(Error::State(e))),
        Progress::Output(bytes) => Step::Write(bytes),
        Progress::NeedMoreInput => Step::Read,
    }
}

/// After a write that reported `count` bytes written: none written means
/// the stream is closed.
pub fn on_written<E, I>(count: usize) -> (r: Option<Error<E, I>>)
    ensures
        count == 0 <==> r is Some,
        r is Some ==> r matches Some(Error::Closed),
{
    if count == 0 {
        Some(Error::Closed)
    } else {
        None
    }
}

/// After a write of all bytes failed: a write that could not write any
/// byte (`write_zero`) means the stream is closed; any other failure is an
/// I/O error.
pub fn on_write_error<E, I>(write_zero: bool, error: I) -> (r: Error<E, I>)
    ensures
        write_zero ==> r is Closed,
        !write_zero ==> r == Error::<E, I>::Io(error),
{
    if write_zero {
        Error::Closed
    } else {
        Error::Io(error)
    }
}

} // verus!
