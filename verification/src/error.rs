//! The errors that this library reports itself.
//!
//! Errors of the operating system never pass through it: whoever performs the
//! input and output returns them unchanged.

use vstd::prelude::*;

verus! {

/// The general category of an [`Error`], named as in [`std::io::ErrorKind`].
#[derive(Clone, Copy, Debug, PartialEq, Eq, Structural)]
pub enum ErrorKind {
    /// A parameter was incorrect.
    InvalidInput,
    /// Received data was not valid.
    InvalidData,
    /// No address was found.
    NotFound,
    /// A deadline expired.
    TimedOut,
    /// A message was not sent whole.
    WriteZero,
    /// None of the others.
    Other,
}

/// What can go wrong in an echo exchange short of a failed system call.
#[derive(Clone, Copy, Debug, PartialEq, Eq, Structural)]
pub enum Error {
    /// The payload would not hold more than the timestamp.
    SizeTooSmall,
    /// No matching reply came before the deadline.
    TimedOut,
    /// The socket took only a part of the request.
    IncompleteSend,
    /// Ancillary data did not fit the control buffer.
    ControlTruncated,
    /// A reply came without the address of its sender.
    NoSourceAddress,
    /// An ICMPv6 reply came without its hop limit.
    MissingHopLimit,
    /// A host name resolved to nothing.
    Unresolved,
    /// A destination resolved to nothing.
    NoAddressFound,
}

impl Error {
    /// The category of the error.
    pub open spec fn category(self) -> ErrorKind {
        match self {
            Error::SizeTooSmall => ErrorKind::InvalidInput,
            Error::TimedOut => ErrorKind::TimedOut,
            Error::IncompleteSend => ErrorKind::WriteZero,
            Error::ControlTruncated => ErrorKind::Other,
            Error::NoSourceAddress => ErrorKind::InvalidData,
            Error::MissingHopLimit => ErrorKind::InvalidData,
            Error::Unresolved => ErrorKind::NotFound,
            Error::NoAddressFound => ErrorKind::NotFound,
        }
    }

    /// The message of the error.
    pub open spec fn text(self) -> Seq<char> {
        match self {
            Error::SizeTooSmall => "size must be greater than 8 (timestamp bytes)"@,
            Error::TimedOut => "timed out"@,
            Error::IncompleteSend => "socket did not send the complete ICMP request"@,
            Error::ControlTruncated => "recvmsg control buffer truncated (MSG_CTRUNC)"@,
            Error::NoSourceAddress => "recvmsg returned no source address"@,
            Error::MissingHopLimit => "reply missing IPV6_HOPLIMIT control message"@,
            Error::Unresolved => "could not resolve to any address"@,
            Error::NoAddressFound => "no address found"@,
        }
    }

    /// The category of the error.
    pub fn kind(&self) -> (kind: ErrorKind)
        ensures
            kind == self.category(),
    {
        match self {
            Error::SizeTooSmall => ErrorKind::InvalidInput,
            Error::TimedOut => ErrorKind::TimedOut,
            Error::IncompleteSend => ErrorKind::WriteZero,
            Error::ControlTruncated => ErrorKind::Other,
            Error::NoSourceAddress => ErrorKind::InvalidData,
            Error::MissingHopLimit => ErrorKind::InvalidData,
            Error::Unresolved => ErrorKind::NotFound,
            Error::NoAddressFound => ErrorKind::NotFound,
        }
    }

    /// The message of the error.
    pub fn message(&self) -> (message: &'static str)
        ensures
            message@ == self.text(),
    {
        match self {
            Error::SizeTooSmall => "size must be greater than 8 (timestamp bytes)",
            Error::TimedOut => "timed out",
            Error::IncompleteSend => "socket did not send the complete ICMP request",
            Error::ControlTruncated => "recvmsg control buffer truncated (MSG_CTRUNC)",
            Error::NoSourceAddress => "recvmsg returned no source address",
            Error::MissingHopLimit => "reply missing IPV6_HOPLIMIT control message",
            Error::Unresolved => "could not resolve to any address",
            Error::NoAddressFound => "no address found",
        }
    }
}

} // verus!
