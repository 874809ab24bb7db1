//! The mathematical model of the negotiation: its phases, what it
//! holds, and how one resumption takes it from one state to the next.

use vstd::prelude::*;
use vstd::string::{is_ascii, is_ascii_spec_bytes, StringSliceAdditionalSpecFns};
use crate::io::{IoView, OutputView};
use crate::scan::{holds_line, holds_tagged_line};
use crate::stream::{
    read_mismatch, read_request, read_response, write_mismatch, write_request, write_response,
    zeroed, DEFAULT_CAPACITY,
};

verus! {

/// The STARTTLS command, as sent to the server.
pub const COMMAND: &'static str = "NGC6543 STARTTLS\r\n";

/// The tag of the command followed by a space: the start of the line
/// with which the server acknowledges the command.
pub const TAG: &'static str = "NGC6543 ";

/// The bytes of [`COMMAND`].
pub open spec fn command() -> Seq<u8> {
    COMMAND.spec_bytes()
}

/// The bytes of [`TAG`].
pub open spec fn tag() -> Seq<u8> {
    TAG.spec_bytes()
}

/// The command and its tag, byte by byte; the command starts with the
/// tag, and the tag holds no line feed.
pub proof fn lemma_command_bytes()
    ensures
        command() == seq![78u8, 71, 67, 54, 53, 52, 51, 32, 83, 84, 65, 82, 84, 84, 76, 83, 13, 10],
        tag() == seq![78u8, 71, 67, 54, 53, 52, 51, 32],
        tag() == command().subrange(0, 8),
        !holds_line(tag()),
{
    reveal_strlit("NGC6543 STARTTLS\r\n");
    reveal_strlit("NGC6543 ");
    broadcast use is_ascii_spec_bytes;

    assert(is_ascii(COMMAND) && is_ascii(TAG));
}

/// Where the negotiation stands.
pub enum Phase {
    /// The server's greeting is being read and discarded.
    DiscardGreeting,
    /// The command is being written.
    WriteCommand,
    /// The server's acknowledgement is being read and discarded.
    DiscardResponse,
}

/// The state of a negotiation.
pub struct Machine {
    /// The phase the negotiation is in.
    pub phase: Phase,
    /// What the operation of the current phase holds for its next
    /// request: a buffer to read into or the bytes to write. `None`
    /// while a request is outstanding.
    pub held: Option<Seq<u8>>,
    /// The bytes received so far in the current phase.
    pub bytes: Seq<u8>,
}

/// The state in which the command is about to be written.
pub open spec fn writing() -> Machine {
    Machine { phase: Phase::WriteCommand, held: Some(command()), bytes: Seq::empty() }
}

/// The state a negotiation starts in: about to read the greeting if it
/// is to be discarded, about to write the command otherwise.
pub open spec fn initial(discard_greeting: bool) -> Machine {
    if discard_greeting {
        Machine {
            phase: Phase::DiscardGreeting,
            held: Some(zeroed(DEFAULT_CAPACITY as nat)),
            bytes: Seq::empty(),
        }
    } else {
        writing()
    }
}

/// The request the negotiation emits when driven without input.
pub open spec fn request(m: Machine) -> IoView {
    match m.phase {
        Phase::WriteCommand => write_request(m.held),
        _ => read_request(m.held),
    }
}

/// Driving the negotiation without input: it emits the request of its
/// current operation and keeps everything but what it handed out.
pub open spec fn suspend(m: Machine) -> (Machine, Result<(), IoView>) {
    (Machine { held: None, ..m }, Err(request(m)))
}

/// The state in which the acknowledgement is about to be read.
pub open spec fn awaiting_response() -> Machine {
    Machine {
        phase: Phase::DiscardResponse,
        held: Some(zeroed(DEFAULT_CAPACITY as nat)),
        bytes: Seq::empty(),
    }
}

/// The state after a read that did not complete the current phase: the
/// received bytes are kept and the buffer is reused for the next read.
pub open spec fn reading_on(m: Machine, out: OutputView) -> Machine {
    Machine { held: Some(zeroed(out.buffer.len())), bytes: m.bytes + out.bytes(), ..m }
}

/// One resumption of the negotiation: the state it is left in and what
/// it returns, `Ok` once the acknowledgement line has arrived and
/// otherwise the I/O it needs next.
pub open spec fn resume_spec(m: Machine, io: Option<IoView>) -> (Machine, Result<(), IoView>) {
    match io {
        None => suspend(m),
        Some(arg) => match m.phase {
            Phase::DiscardGreeting => match read_response(arg, read_mismatch(arg)) {
                Err(io) => (m, Err(io)),
                Ok(out) => if holds_line(m.bytes + out.bytes()) {
                    suspend(writing())
                } else {
                    suspend(reading_on(m, out))
                },
            },
            Phase::WriteCommand => match write_response(arg, write_mismatch(arg)) {
                Err(io) => (m, Err(io)),
                Ok(_) => suspend(awaiting_response()),
            },
            Phase::DiscardResponse => match read_response(arg, read_mismatch(arg)) {
                Err(io) => (m, Err(io)),
                Ok(out) => if holds_tagged_line(m.bytes + out.bytes(), tag()) {
                    (Machine { bytes: m.bytes + out.bytes(), ..m }, Ok(()))
                } else {
                    suspend(reading_on(m, out))
                },
            },
        },
    }
}

} // verus!
