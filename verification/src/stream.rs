//! The resumable read and write operations of `io_stream`, with the
//! contracts the negotiation relies on.
//!
//! Nothing in this module is proved: each contract restates what the
//! source of `io_stream` does.

use vstd::prelude::*;
use io_stream::coroutines::{Read, Write};
use io_stream::{Io as StreamIo, Output as StreamOutput};
use crate::io::{outcome_view, Io, IoView, Output, OutputView};

verus! {

/// `io_stream::coroutines::Read`, the resumable read operation. What
/// it holds is spoken of through [`read_buffer`].
#[verifier::external_type_specification]
#[verifier::external_body]
pub struct ExRead(Read);

/// `io_stream::coroutines::Write`, the resumable write operation. What
/// it holds is spoken of through [`write_bytes`].
#[verifier::external_type_specification]
#[verifier::external_body]
pub struct ExWrite(Write);

/// Length of the buffer a fresh read operation hands out.
pub const DEFAULT_CAPACITY: usize = 8192;

/// The buffer a read operation holds and will hand out with its next
/// request; `None` once it has been handed out.
pub uninterp spec fn read_buffer(read: Read) -> Option<Seq<u8>>;

/// The bytes a write operation holds and will hand out with its next
/// request; `None` once they have been handed out.
pub uninterp spec fn write_bytes(write: Write) -> Option<Seq<u8>>;

/// The message of the error with which `Read::resume` answers `arg`
/// when `arg` is not a read: a fixed text followed by `arg` as its
/// `Debug` implementation prints it.
pub uninterp spec fn read_mismatch(arg: IoView) -> Seq<char>;

/// The message of the error with which `Write::resume` answers `arg`
/// when `arg` is not a completed write: a fixed text followed by `arg`
/// as its `Debug` implementation prints it.
pub uninterp spec fn write_mismatch(arg: IoView) -> Seq<char>;

/// A buffer of `len` zero bytes.
pub open spec fn zeroed(len: nat) -> Seq<u8> {
    Seq::new(len, |i: int| 0u8)
}

/// What a read operation asks for when driven without input.
pub open spec fn read_request(held: Option<Seq<u8>>) -> IoView {
    match held {
        Some(buffer) => IoView::Read(Err(buffer)),
        None => IoView::Error("Stream error: Read buffer not ready"@),
    }
}

/// What a read operation makes of the response it is driven with,
/// `rejection` being the message it has for a response it cannot use.
pub open spec fn read_response(arg: IoView, rejection: Seq<char>) -> Result<OutputView, IoView> {
    match arg {
        IoView::Read(Ok(out)) => Ok(out),
        IoView::Read(Err(buffer)) => Err(IoView::Read(Err(buffer))),
        _ => Err(IoView::Error(rejection)),
    }
}

/// What a write operation asks for when driven without input.
pub open spec fn write_request(held: Option<Seq<u8>>) -> IoView {
    match held {
        Some(bytes) => IoView::Write(Err(bytes)),
        None => IoView::Error("Stream error: Write bytes not ready"@),
    }
}

/// What a write operation makes of the response it is driven with,
/// `rejection` being the message it has for a response it cannot use.
pub open spec fn write_response(arg: IoView, rejection: Seq<char>) -> Result<OutputView, IoView> {
    match arg {
        IoView::Write(Ok(out)) => Ok(out),
        _ => Err(IoView::Error(rejection)),
    }
}

/// `Read::default`: a read operation holding a zeroed buffer of
/// [`DEFAULT_CAPACITY`] bytes.
#[verifier::external_body]
pub(crate) fn read_default() -> (read: Read)
    ensures
        read_buffer(read) == Some(zeroed(DEFAULT_CAPACITY as nat)),
{
    Read::default()
}

/// `Read::replace`: the operation zeroes the given buffer and holds it
/// for its next request.
#[verifier::external_body]
pub(crate) fn read_replace(read: &mut Read, buffer: Vec<u8>)
    ensures
        read_buffer(*final(read)) == Some(zeroed(buffer@.len())),
{
    read.replace(buffer)
}

/// `Read::resume`. Without input the operation hands out the buffer it
/// holds as a read request, or an error if it holds none, and holds
/// none afterwards. With input it keeps what it holds and passes a read
/// response through as its output, a read request back as a request,
/// and answers anything else with an error.
#[verifier::external_body]
pub(crate) fn read_resume(read: &mut Read, arg: Option<Io>) -> (res: Result<Output, Io>)
    ensures
        arg is None ==> (res matches Err(io) && io@ == read_request(read_buffer(*old(read)))),
        arg is None ==> read_buffer(*final(read)) is None,
        arg is Some ==> outcome_view(res) == read_response(arg->0@, read_mismatch(arg->0@)),
        arg is Some ==> read_buffer(*final(read)) == read_buffer(*old(read)),
{
    let put = |Output { buffer, bytes_count }: Output| StreamOutput { buffer, bytes_count };
    let get = |StreamOutput { buffer, bytes_count }: StreamOutput| Output { buffer, bytes_count };
    let arg = arg.map(|io| match io {
        Io::Error(msg) => StreamIo::Error(msg),
        Io::Read(r) => StreamIo::Read(r.map(put)),
        Io::Write(r) => StreamIo::Write(r.map(put)),
    });
    read.resume(arg).map(get).map_err(|io| match io {
        StreamIo::Error(msg) => Io::Error(msg),
        StreamIo::Read(r) => Io::Read(r.map(get)),
        StreamIo::Write(r) => Io::Write(r.map(get)),
    })
}

/// `Write::new`: a write operation holding the given bytes.
#[verifier::external_body]
pub(crate) fn write_new(bytes: Vec<u8>) -> (write: Write)
    ensures
        write_bytes(write) == Some(bytes@),
{
    Write::new(bytes)
}

/// `Write::resume`. Without input the operation hands out the bytes it
/// holds as a write request, or an error if it holds none, and holds
/// none afterwards. With input it keeps what it holds, passes a write
/// response through as its output and answers anything else with an
/// error.
#[verifier::external_body]
pub(crate) fn write_resume(write: &mut Write, arg: Option<Io>) -> (res: Result<Output, Io>)
    ensures
        arg is None ==> (res matches Err(io) && io@ == write_request(write_bytes(*old(write)))),
        arg is None ==> write_bytes(*final(write)) is None,
        arg is Some ==> outcome_view(res) == write_response(arg->0@, write_mismatch(arg->0@)),
        arg is Some ==> write_bytes(*final(write)) == write_bytes(*old(write)),
{
    let put = |Output { buffer, bytes_count }: Output| StreamOutput { buffer, bytes_count };
    let get = |StreamOutput { buffer, bytes_count }: StreamOutput| Output { buffer, bytes_count };
    let arg = arg.map(|io| match io {
        Io::Error(msg) => StreamIo::Error(msg),
        Io::Read(r) => StreamIo::Read(r.map(put)),
        Io::Write(r) => StreamIo::Write(r.map(put)),
    });
    write.resume(arg).map(get).map_err(|io| match io {
        StreamIo::Error(msg) => Io::Error(msg),
        StreamIo::Read(r) => Io::Read(r.map(get)),
        StreamIo::Write(r) => Io::Write(r.map(get)),
    })
}

} // verus!
