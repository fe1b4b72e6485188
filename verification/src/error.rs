//! What can go wrong.

use std::time::SystemTimeError;
use vstd::prelude::*;

verus! {

/// Why bytes are not a message.
#[derive(Debug, Clone, Copy, PartialEq, Eq)]
pub enum DecodeError {
    /// The bytes end inside a value, or a message goes on beyond the size that
    /// it may have.
    UnexpectedEof,
    /// The payload does not have the checksum that its header gives.
    InvalidChecksum {
        /// The checksum of the payload.
        expected: [u8; 4],
        /// The checksum in the header.
        actual: [u8; 4],
    },
    /// A variable-length integer is not in its shortest form.
    NonMinimalVarInt,
    /// The command in the header takes more than twelve bytes as text.
    InvalidCommand,
    /// A text is not valid UTF-8.
    InvalidUtf8,
}

/// Why a transaction was not sent.
#[derive(Debug)]
pub enum Error {
    /// The peer broke the protocol, or cannot be sent a transaction.
    Protocol(String),
    /// The peer sent something that cannot be decoded.
    Bitcoin(DecodeError),
    /// The clock stands before 1970.
    SystemTime(SystemTimeError),
    /// The clock gives a number of seconds that a version message cannot hold.
    TimestampOverflow,
}

/// What an [`Error`] is.
pub enum ErrorModel {
    Protocol(Seq<char>),
    Bitcoin(DecodeError),
    SystemTime(SystemTimeError),
    TimestampOverflow,
}

impl View for Error {
    type V = ErrorModel;

    open spec fn view(&self) -> ErrorModel {
        match *self {
            Error::Protocol(text) => ErrorModel::Protocol(text@),
            Error::Bitcoin(e) => ErrorModel::Bitcoin(e),
            Error::SystemTime(e) => ErrorModel::SystemTime(e),
            Error::TimestampOverflow => ErrorModel::TimestampOverflow,
        }
    }
}

/// An error is its kind and what it says.
pub proof fn law_error_kinds(text: String, decoding: DecodeError, clock: SystemTimeError)
    ensures
        Error::Protocol(text)@ == ErrorModel::Protocol(text@),
        Error::Bitcoin(decoding)@ == ErrorModel::Bitcoin(decoding),
        Error::SystemTime(clock)@ == ErrorModel::SystemTime(clock),
        Error::TimestampOverflow@ == ErrorModel::TimestampOverflow,
{
}

} // verus!
