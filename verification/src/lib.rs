//! Sans-I/O negotiation of the IMAP STARTTLS upgrade.
//!
//! The negotiation is a resumable state machine: it never touches a
//! transport, it only says which read or write it needs next and is
//! resumed with the outcome. It is verified against a mathematical
//! model of that machine. The resumable operations of `io_stream` and
//! the searches of `memchr` that it is built from are not: the modules
//! [`stream`] and [`scan`] state what is taken for granted of them.

pub mod imap;
pub mod io;
pub mod laws;
pub mod model;
pub mod scan;
pub mod stream;
