use vstd::prelude::*;

use crate::text::{decimal, decimal_text};
use crate::types::Type;

verus! {

/// The standard library's I/O error, carried through unchanged.
#[verifier::external_type_specification]
#[verifier::external_body]
pub struct ExIoError(std::io::Error);

/// Description of a protocol error for a type byte that names no type.
pub const INVALID_TYPE: &'static str = "invalid type";

/// Description of a protocol error for a call's result byte other than
/// success or the generic failure.
pub const INVALID_RESULT: &'static str = "invalid result byte";

/// Description of a protocol error for a result byte other than success
/// after a request that cannot fail.
pub const INVALID_INFALLIBLE_RESULT: &'static str = "invalid result of infallible request";

/// Errors that can occur when attempting to perform a µRPC operation.
#[allow(inconsistent_fields)]
#[derive(Debug)]
pub enum Error {
    /// The channel failed to deliver or accept bytes.
    IoError(std::io::Error),
    /// The server answered a call with the generic failure code.
    GenericError,
    /// The procedure id is not in the server's procedure table.
    ProcOutOfRange,
    /// A call supplied a different number of arguments than the procedure declares.
    MismatchedArgumentCount {
        /// Number of parameters the procedure declares.
        expected: u16,
        /// Number of arguments supplied.
        found: usize,
    },
    /// A call supplied an argument of the wrong type.
    MismatchedArguments {
        /// Index of the first mismatched argument.
        index: u8,
        /// Type declared by the server.
        expected: Type,
        /// Type supplied by the caller.
        found: Type,
    },
    /// The server implements another protocol version.
    MismatchedVersion { ours: u8, theirs: u8 },
    /// The server sent a byte that the protocol does not allow at that place.
    ProtocolError { description: &'static str },
}

/// The message shown for an error other than an I/O error: one line,
/// ended by a newline.
pub open spec fn error_message(e: Error) -> Seq<char> {
    match e {
        Error::IoError(_) => "i/o error: "@ + "\n"@,
        Error::GenericError => "generic µRPC error"@ + "\n"@,
        Error::ProcOutOfRange => "procedure id out of range"@ + "\n"@,
        Error::MismatchedArgumentCount { expected, found } => "mismatched number of arguments (expected "@
            + decimal(expected as nat) + ", got "@ + decimal(found as nat) + ")"@ + "\n"@,
        Error::MismatchedArguments { index, expected, found } =>
            "mismatched argument type for argument index "@ + decimal(index as nat)
            + " (expected "@ + expected.display() + ", found "@ + found.display() + ")"@ + "\n"@,
        Error::MismatchedVersion { ours, theirs } =>
            "mismatched µRPC version (this library implements version "@ + decimal(ours as nat)
            + ", the other endpoint implements "@ + decimal(theirs as nat) + ")"@ + "\n"@,
        Error::ProtocolError { description } => "protocol error: "@ + description@ + "\n"@,
    }
}

/// Relies on `std::io::Error`'s `Display`, through `to_string`: the I/O
/// error's own text.
#[verifier::external_body]
fn io_error_text(e: &std::io::Error) -> String {
    e.to_string()
}

/// Relies on `std::io::Error`'s `std::error::Error::description`: the I/O
/// error's own short description.
#[verifier::external_body]
#[allow(deprecated)]
fn io_error_description(e: &std::io::Error) -> &str {
    std::error::Error::description(e)
}

impl Error {
    /// The message shown for this error, with the context it carries
    /// (expected and found types or counts, versions), ended by a newline.
    /// An I/O error's message is `i/o error: ` followed by the channel's own
    /// text and the newline.
    pub fn message(&self) -> (r: String)
        ensures
            !(self is IoError) ==> r@ == error_message(*self),
            self is IoError ==> {
                &&& r@.len() >= 12
                &&& r@.subrange(0, 11) == "i/o error: "@
                &&& r@.last() == '\n'
            },
    {
        let mut s = match self {
            Error::IoError(e) => {
                let mut s = String::from_str("i/o error: ");
                let t = io_error_text(e);
                s.append(t.as_str());
                s
            },
            Error::GenericError => String::from_str("generic µRPC error"),
            Error::ProcOutOfRange => String::from_str("procedure id out of range"),
            Error::MismatchedArgumentCount { expected, found } => {
                let mut s = String::from_str("mismatched number of arguments (expected ");
                s.append(decimal_text(*expected as u64).as_str());
                s.append(", got ");
                s.append(decimal_text(*found as u64).as_str());
                s.append(")");
                s
            },
            Error::MismatchedArguments { index, expected, found } => {
                let mut s = String::from_str("mismatched argument type for argument index ");
                s.append(decimal_text(*index as u64).as_str());
                s.append(" (expected ");
                s.append(expected.name());
                s.append(", found ");
                s.append(found.name());
                s.append(")");
                s
            },
            Error::MismatchedVersion { ours, theirs } => {
                let mut s = String::from_str(
                    "mismatched µRPC version (this library implements version ",
                );
                s.append(decimal_text(*ours as u64).as_str());
                s.append(", the other endpoint implements ");
                s.append(decimal_text(*theirs as u64).as_str());
                s.append(")");
                s
            },
            Error::ProtocolError { description } => {
                let mut s = String::from_str("protocol error: ");
                s.append(description);
                s
            },
        };
        let ghost body = s@;
        proof {
            reveal_strlit("i/o error: ");
            reveal_strlit("\n");
        }
        s.append("\n");
        proof {
            if self is IoError {
                assert(s@.subrange(0, 11) =~= body.subrange(0, 11));
            }
        }
        s
    }

    /// The I/O error that the channel reported, if this is one.
    pub fn io_error(&self) -> (r: Option<&std::io::Error>)
        ensures
            r is Some <==> self is IoError,
            match self {
                Error::IoError(e) => r == Some(e),
                _ => true,
            },
    {
        match self {
            Error::IoError(e) => Some(e),
            _ => None,
        }
    }

    /// A short description of the error kind; for an I/O error, the I/O
    /// error's own description.
    pub fn description(&self) -> (r: &str)
        ensures
            match self {
                Error::IoError(_) => true,
                Error::GenericError => r@ == "generic µRPC error"@,
                Error::ProcOutOfRange => r@ == "procedure id out of range"@,
                Error::MismatchedArgumentCount { .. } => r@ == "mismatched number of arguments"@,
                Error::MismatchedArguments { .. } => r@ == "mismatched arguments"@,
                Error::MismatchedVersion { .. } => r@ == "mismatched µRPC version"@,
                Error::ProtocolError { description } => r == *description,
            },
    {
        match self {
            Error::IoError(e) => io_error_description(e),
            Error::GenericError => "generic µRPC error",
            Error::ProcOutOfRange => "procedure id out of range",
            Error::MismatchedArgumentCount { .. } => "mismatched number of arguments",
            Error::MismatchedArguments { .. } => "mismatched arguments",
            Error::MismatchedVersion { .. } => "mismatched µRPC version",
            Error::ProtocolError { description } => description,
        }
    }
}

} // verus!
