//! The negotiation that upgrades a plain IMAP stream to TLS.

use vstd::prelude::*;
use vstd::string::StrSliceExecFns;
use io_stream::coroutines::{Read, Write};
use crate::io::{Io, IoView, input_view};
use crate::model::{initial, resume_spec, Machine, Phase, COMMAND, TAG};
use crate::scan::{has_line, has_tagged_line};
use crate::stream::{
    read_buffer, read_default, read_replace, read_resume, write_bytes, write_new, write_resume,
};

verus! {

/// Model of what a resumption returns.
pub open spec fn result_view(res: Result<(), Io>) -> Result<(), IoView> {
    match res {
        Ok(()) => Ok(()),
        Err(io) => Err(io@),
    }
}

/// The operation in flight, one per phase.
#[derive(Debug)]
enum State {
    /// Reading until the greeting line is complete.
    DiscardGreeting(Read),
    /// Writing the command.
    WriteStartTlsCommand(Write),
    /// Reading until the tagged acknowledgement line is complete.
    DiscardResponse(Read),
}

impl State {
    spec fn phase(self) -> Phase {
        match self {
            State::DiscardGreeting(_) => Phase::DiscardGreeting,
            State::WriteStartTlsCommand(_) => Phase::WriteCommand,
            State::DiscardResponse(_) => Phase::DiscardResponse,
        }
    }

    spec fn held(self) -> Option<Seq<u8>> {
        match self {
            State::DiscardGreeting(read) => read_buffer(read),
            State::WriteStartTlsCommand(write) => write_bytes(write),
            State::DiscardResponse(read) => read_buffer(read),
        }
    }
}

/// The STARTTLS negotiation that upgrades a plain IMAP stream to a
/// secure one.
///
/// It performs no I/O: [`UpgradeTls::resume`] returns the read or write
/// it needs, and is called again with the outcome.
#[derive(Debug)]
pub struct UpgradeTls {
    state: State,
    bytes: Vec<u8>,
}

impl View for UpgradeTls {
    type V = Machine;

    closed spec fn view(&self) -> Machine {
        Machine { phase: self.state.phase(), held: self.state.held(), bytes: self.bytes@ }
    }
}

/// Appends the received bytes to the accumulator.
fn accumulate(acc: &mut Vec<u8>, received: &[u8])
    ensures
        final(acc)@ == old(acc)@ + received@,
{
    acc.extend_from_slice(received);
}

impl UpgradeTls {
    /// Creates a negotiation that reads and discards the greeting
    /// before it writes the command.
    pub fn new() -> (res: Self)
        ensures
            res@ == initial(true),
    {
        UpgradeTls { state: State::DiscardGreeting(read_default()), bytes: Vec::new() }
    }

    /// Tells the negotiation how to handle the greeting, and puts it
    /// at the start of the phase that follows from the choice: reading
    /// the greeting if `discard` is set, writing the command if the
    /// greeting has already been consumed elsewhere.
    ///
    /// Meant to be called before the first resumption. The bytes
    /// received so far are left as they are.
    pub fn discard_greeting(&mut self, discard: bool)
        ensures
            final(self)@ == (Machine { bytes: old(self)@.bytes, ..initial(discard) }),
    {
        self.state = if discard {
            State::DiscardGreeting(read_default())
        } else {
            State::WriteStartTlsCommand(write_new(COMMAND.as_bytes_vec()))
        };
    }

    /// Builder form of [`UpgradeTls::discard_greeting`].
    pub fn with_discard_greeting(self, discard: bool) -> (res: Self)
        ensures
            res@ == (Machine { bytes: self@.bytes, ..initial(discard) }),
    {
        let mut this = self;
        this.discard_greeting(discard);
        this
    }

    /// Makes the negotiation progress.
    ///
    /// Called with `None` it returns the I/O it needs next, as an
    /// `Err`. Called with the outcome of that I/O it takes the outcome
    /// in, moves on as far as it can, and returns either the next I/O
    /// it needs or, once the server's acknowledgement line has arrived,
    /// `Ok`. The line is not examined: any tagged line completes the
    /// negotiation, whatever status it reports.
    ///
    /// Each call goes through at most one change of phase, and ends
    /// with at most one I/O request outstanding.
    pub fn resume(&mut self, io: Option<Io>) -> (res: Result<(), Io>)
        ensures
            (final(self)@, result_view(res)) == resume_spec(old(self)@, input_view(io)),
    {
        let mut arg = io;
        loop
            invariant
                resume_spec(self@, input_view(arg)) == resume_spec(old(self)@, input_view(io)),
            decreases (if arg is Some { 1int } else { 0int }),
        {
            match &mut self.state {
                State::DiscardGreeting(read) => {
                    let output = read_resume(read, arg.take())?;
                    accumulate(&mut self.bytes, output.bytes());
                    if has_line(self.bytes.as_slice()) {
                        self.bytes.clear();
                        self.state = State::WriteStartTlsCommand(write_new(COMMAND.as_bytes_vec()));
                    } else {
                        read_replace(read, output.into_buffer());
                    }
                },
                State::WriteStartTlsCommand(write) => {
                    write_resume(write, arg.take())?;
                    self.bytes.clear();
                    self.state = State::DiscardResponse(read_default());
                },
                State::DiscardResponse(read) => {
                    let output = read_resume(read, arg.take())?;
                    accumulate(&mut self.bytes, output.bytes());
                    if has_tagged_line(self.bytes.as_slice(), TAG.as_bytes()) {
                        return Ok(());
                    }
                    read_replace(read, output.into_buffer());
                },
            }
        }
    }
}

} // verus!
