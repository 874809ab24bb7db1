//! The I/O requests and responses exchanged between the negotiation and
//! whatever performs the actual reads and writes.

use vstd::prelude::*;

verus! {

/// What a completed read or write hands back: the buffer that was used
/// and how many of its bytes were read or written. The count never
/// exceeds the buffer.
#[derive(Debug, PartialEq, Eq)]
pub struct Output {
    pub(crate) buffer: Vec<u8>,
    pub(crate) bytes_count: usize,
}

/// Mathematical model of an [`Output`].
pub struct OutputView {
    /// The buffer the operation worked on.
    pub buffer: Seq<u8>,
    /// The number of bytes read into, or written from, the buffer.
    pub bytes_count: nat,
}

impl OutputView {
    /// The count does not exceed the buffer.
    pub open spec fn wf(self) -> bool {
        self.bytes_count <= self.buffer.len()
    }

    /// The bytes that were actually read or written.
    pub open spec fn bytes(self) -> Seq<u8> {
        self.buffer.subrange(0, self.bytes_count as int)
    }
}

impl View for Output {
    type V = OutputView;

    closed spec fn view(&self) -> OutputView {
        OutputView { buffer: self.buffer@, bytes_count: self.bytes_count as nat }
    }
}

impl Output {
    #[verifier::type_invariant]
    spec fn counts_within_buffer(self) -> bool {
        self.bytes_count <= self.buffer@.len()
    }

    /// Makes an output of a buffer and the number of its bytes that were
    /// read or written, unless the number exceeds the buffer.
    pub fn new(buffer: Vec<u8>, bytes_count: usize) -> (res: Option<Output>)
        ensures
            res is Some <==> bytes_count <= buffer@.len(),
            res matches Some(out) ==> out@ == (OutputView {
                buffer: buffer@,
                bytes_count: bytes_count as nat,
            }),
    {
        if bytes_count <= buffer.len() {
            Some(Output { buffer, bytes_count })
        } else {
            None
        }
    }

    /// The buffer the operation worked on.
    pub fn buffer(&self) -> (res: &[u8])
        ensures
            res@ == self@.buffer,
    {
        self.buffer.as_slice()
    }

    /// The number of bytes read into, or written from, the buffer.
    pub fn bytes_count(&self) -> (res: usize)
        ensures
            res == self@.bytes_count,
            self@.wf(),
    {
        proof {
            use_type_invariant(self);
        }
        self.bytes_count
    }

    /// Exactly the bytes that were read or written.
    pub fn bytes(&self) -> (res: &[u8])
        ensures
            res@ == self@.bytes(),
            self@.wf(),
    {
        proof {
            use_type_invariant(self);
        }
        vstd::slice::slice_subrange(self.buffer.as_slice(), 0, self.bytes_count)
    }

    /// Gives the buffer back, to be used again.
    pub fn into_buffer(self) -> (res: Vec<u8>)
        ensures
            res@ == self@.buffer,
    {
        self.buffer
    }
}

/// An I/O request emitted by the negotiation, or the response to one.
///
/// `Err` inside `Read` and `Write` carries a request (the buffer to
/// read into, the bytes to write); `Ok` carries the response.
#[derive(Debug, PartialEq, Eq)]
pub enum Io {
    /// The negotiation was driven with something it cannot use.
    Error(String),
    /// A read: the buffer to fill, or the outcome of filling it.
    Read(Result<Output, Vec<u8>>),
    /// A write: the bytes to send, or the outcome of sending them.
    Write(Result<Output, Vec<u8>>),
}

/// Mathematical model of an [`Io`].
pub enum IoView {
    Error(Seq<char>),
    Read(Result<OutputView, Seq<u8>>),
    Write(Result<OutputView, Seq<u8>>),
}

impl View for Io {
    type V = IoView;

    open spec fn view(&self) -> IoView {
        match *self {
            Io::Error(msg) => IoView::Error(msg@),
            Io::Read(Ok(out)) => IoView::Read(Ok(out@)),
            Io::Read(Err(buffer)) => IoView::Read(Err(buffer@)),
            Io::Write(Ok(out)) => IoView::Write(Ok(out@)),
            Io::Write(Err(bytes)) => IoView::Write(Err(bytes@)),
        }
    }
}

/// Model of an optional [`Io`], as handed to a resumption.
pub open spec fn input_view(io: Option<Io>) -> Option<IoView> {
    match io {
        Some(io) => Some(io@),
        None => None,
    }
}

/// Model of what an operation hands back: its output, or the I/O it
/// still needs.
pub open spec fn outcome_view(res: Result<Output, Io>) -> Result<OutputView, IoView> {
    match res {
        Ok(out) => Ok(out@),
        Err(io) => Err(io@),
    }
}

} // verus!
