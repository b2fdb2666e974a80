use vstd::prelude::*;
use crate::text::{decimal, u64_to_string};

verus! {

/// Errors that can occur when an agent attempts to register.
#[derive(Debug, PartialEq, Eq, Structural)]
pub enum ConnectError {
    Unauthenticated,
    TimestampExpired,
    IdInUse,
    InvalidId,
    PortInUse,
    PortOutOfRange,
    PortExhausted,
}

impl ConnectError {
    /// The text this error displays as.
    pub open spec fn spec_message(&self) -> Seq<char> {
        match self {
            ConnectError::Unauthenticated => "unauthenticated"@,
            ConnectError::TimestampExpired => "timestamp out of window"@,
            ConnectError::IdInUse => "tunnel id already in use"@,
            ConnectError::InvalidId => "tunnel id contains invalid characters"@,
            ConnectError::PortInUse => "port already in use"@,
            ConnectError::PortOutOfRange => "port out of range"@,
            ConnectError::PortExhausted => "no free port in range"@,
        }
    }

    /// Human-readable description of the error.
    pub fn message(&self) -> (s: String)
        ensures
            s@ == self.spec_message(),
    {
        match self {
            ConnectError::Unauthenticated => String::from_str("unauthenticated"),
            ConnectError::TimestampExpired => String::from_str("timestamp out of window"),
            ConnectError::IdInUse => String::from_str("tunnel id already in use"),
            ConnectError::InvalidId => String::from_str("tunnel id contains invalid characters"),
            ConnectError::PortInUse => String::from_str("port already in use"),
            ConnectError::PortOutOfRange => String::from_str("port out of range"),
            ConnectError::PortExhausted => String::from_str("no free port in range"),
        }
    }
}

/// Errors that can occur when routing an inbound HTTP request to a tunnel.
#[derive(Debug, PartialEq, Eq)]
pub enum RoutingError {
    NoClient(String),
    NoSocket,
    NoAgent(u16),
    AgentDisconnected,
}

impl RoutingError {
    /// The text this error displays as.
    pub open spec fn spec_message(&self) -> Seq<char> {
        match self {
            RoutingError::NoClient(id) => "no tunnel registered for id '"@ + id@ + "'"@,
            RoutingError::NoSocket => "tunnel has no available sockets"@,
            RoutingError::NoAgent(port) => "no tunnel agent on port "@ + decimal(*port as nat),
            RoutingError::AgentDisconnected => "tunnel agent disconnected"@,
        }
    }

    /// Human-readable description of the error.
    pub fn message(&self) -> (s: String)
        ensures
            s@ == self.spec_message(),
    {
        match self {
            RoutingError::NoClient(id) => {
                let s = String::from_str("no tunnel registered for id '");
                let s = s.concat(id.as_str());
                s.concat("'")
            },
            RoutingError::NoSocket => String::from_str("tunnel has no available sockets"),
            RoutingError::NoAgent(port) => {
                let s = String::from_str("no tunnel agent on port ");
                let n = u64_to_string(*port as u64);
                s.concat(n.as_str())
            },
            RoutingError::AgentDisconnected => String::from_str("tunnel agent disconnected"),
        }
    }
}

#[verifier::external_type_specification]
#[verifier::external_body]
pub struct ExIoError(std::io::Error);

/// Low-level tunnel I/O errors.
#[derive(Debug)]
pub enum TunnelError {
    IdTimeout,
    IdTooLong,
    UnknownId,
    Io(std::io::Error),
}

/// The first words of the text of an I/O error.
pub open spec fn io_error_prefix() -> Seq<char> {
    "i/o error: "@
}

impl TunnelError {
    /// The text of the errors whose message does not depend on an I/O error.
    pub open spec fn fixed_message(&self) -> Seq<char> {
        match self {
            TunnelError::IdTimeout => "tunnel id read timed out"@,
            TunnelError::IdTooLong => "tunnel id too long (max 100 bytes)"@,
            TunnelError::UnknownId => "unknown tunnel id"@,
            TunnelError::Io(_) => io_error_prefix(),
        }
    }

    /// Human-readable description of the error.
    pub fn message(&self) -> (s: String)
        ensures
            !(self is Io) ==> s@ == self.fixed_message(),
            self is Io ==> exists|t: Seq<char>| s@ == io_error_prefix() + t,
    {
        match self {
            TunnelError::IdTimeout => String::from_str("tunnel id read timed out"),
            TunnelError::IdTooLong => String::from_str("tunnel id too long (max 100 bytes)"),
            TunnelError::UnknownId => String::from_str("unknown tunnel id"),
            TunnelError::Io(e) => {
                let detail = io_error_text(e);
                let s = String::from_str("i/o error: ");
                let s = s.concat(detail.as_str());
                assert(s@ == io_error_prefix() + detail@);
                s
            },
        }
    }
}

/// `Display` of `std::io::Error`. Its text comes from the operating system, so nothing
/// is promised of it.
#[verifier::external_body]
fn io_error_text(e: &std::io::Error) -> (s: String) {
    e.to_string()
}

} // verus!
