//! Error taxonomy of the command pipeline.

use vstd::prelude::*;

verus! {

/// An error raised while a request moves through parsing and handling.
/// `InvalidCommand` means a grammar did not recognize the line, and the
/// dispatcher tries the next family.
#[non_exhaustive]
#[derive(Debug, Clone, PartialEq)]
pub enum InternalIrcError {
    ParsingError(String),
    CapPreRegistration(String),
    ConnectionRegistrationError(String),
    ChannelOperations(String),
    InvalidCommand,
    UserStateError(&'static str),
    ServerStateError(&'static str),
}

impl InternalIrcError {
    /// A short description of the error, for logs.
    pub fn describe(&self) -> &'static str {
        match self {
            InternalIrcError::ParsingError(_) => "parsing error",
            InternalIrcError::CapPreRegistration(_) => "capability negotiation error",
            InternalIrcError::ConnectionRegistrationError(_) => "connection registration error",
            InternalIrcError::ChannelOperations(_) => "channel operation error",
            InternalIrcError::InvalidCommand => "invalid command",
            InternalIrcError::UserStateError(_) => "user state error",
            InternalIrcError::ServerStateError(_) => "server state error",
        }
    }
}

} // verus!
