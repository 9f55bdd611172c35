//! Error types: the parse and serialize taxonomies, and a message-carrying
//! error for callers that want readable text.

use vstd::prelude::*;

verus! {

/// The ways parsing a raw packet can fail. Every one of them makes the
/// responder drop the datagram silently.
#[derive(Debug, Clone, Copy, PartialEq, Eq, Structural)]
pub enum ParseError {
    /// Fewer bytes than the header, or than the declared length, are present.
    Truncated,
    /// The declared length is smaller than the 20-byte header.
    InvalidLength,
    /// An attribute header is cut short or declares a length under 2.
    InvalidAttribute,
    /// A user-name attribute does not hold valid UTF-8.
    InvalidText,
}

/// The ways serializing a packet can fail. These are surfaced to the caller
/// of `process` rather than dropped.
#[derive(Debug, Clone, Copy, PartialEq, Eq, Structural)]
pub enum SerializeError {
    /// The encoded packet would exceed the 16-bit wire length field.
    TooLarge,
    /// Attribute encoding is a declared stub: any attribute-bearing packet is
    /// refused rather than encoded wrongly.
    NotImplemented,
}

/// A protocol error carrying a human-readable message.
#[derive(Debug)]
pub struct Error {
    msg: String,
}

impl View for Error {
    type V = Seq<char>;

    closed spec fn view(&self) -> Seq<char> {
        self.msg@
    }
}

impl Error {
    /// Wrap a message.
    pub fn new(msg: &str) -> (r: Self)
        ensures
            r@ == msg@,
    {
        Error { msg: msg.to_owned() }
    }

    /// The wrapped message.
    pub fn message(&self) -> (r: &String)
        ensures
            r@ == self@,
    {
        &self.msg
    }
}

} // verus!
