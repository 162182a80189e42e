//! The failures of the connector and of the serving loop, and which of
//! them end the call that met them.

use crate::uri::DecodeError;
use vstd::prelude::*;
use vstd::string::*;

verus! {

/// What the operating system said when it refused a socket call.
#[derive(Clone, Copy, Debug, PartialEq, Eq, Structural)]
pub enum OsErrorKind {
    /// No file at the path.
    NotFound,
    /// The path or the socket may not be used by this process.
    PermissionDenied,
    /// Nothing listens on the socket.
    ConnectionRefused,
    /// The path is taken.
    AddrInUse,
    /// The peer is no longer connected.
    NotConnected,
    /// Anything else.
    Other,
}

/// A failure of the connector or of the serving loop.
#[derive(Clone, Copy, Debug, PartialEq, Eq, Structural)]
pub enum Error {
    /// The address does not carry the `unix` scheme. Nothing was dialed.
    InvalidAddress,
    /// The host of the address is not the hex text of a path. Nothing was
    /// dialed.
    MalformedHost,
    /// The system refused to open the socket.
    DialFailure(OsErrorKind),
    /// The system refused to create the listening socket.
    BindFailure(OsErrorKind),
    /// The system failed one accept. The loop goes on.
    AcceptFailure(OsErrorKind),
    /// The peer was gone by the time a finished exchange was wound up.
    BenignDisconnect,
    /// Serving one connection failed. Only that connection is lost.
    ServeFailure,
}

impl Error {
    /// Whether this failure is handed straight back to the caller of the
    /// operation that met it. The others are reported for one accept or
    /// one connection and leave the serving loop running.
    pub open spec fn is_returned(self) -> bool {
        match self {
            Error::InvalidAddress | Error::MalformedHost | Error::DialFailure(_) | Error::BindFailure(_) => true,
            Error::AcceptFailure(_) | Error::BenignDisconnect | Error::ServeFailure => false,
        }
    }

    /// Whether this failure was found before any socket call was made.
    pub open spec fn is_pre_flight(self) -> bool {
        self == Error::InvalidAddress || self == Error::MalformedHost
    }

    /// The failure that a decoding error becomes in the connector.
    pub open spec fn of_decode(e: DecodeError) -> Error {
        match e {
            DecodeError::SchemeMismatch => Error::InvalidAddress,
            DecodeError::MalformedHost => Error::MalformedHost,
        }
    }

    /// The text that describes this failure.
    pub open spec fn text(self) -> Seq<char> {
        match self {
            Error::InvalidAddress => "invalid URL, scheme must be unix"@,
            Error::MalformedHost => "invalid URL, host must be a hex-encoded path"@,
            Error::DialFailure(_) => "failed to connect to the socket"@,
            Error::BindFailure(_) => "failed to bind the socket"@,
            Error::AcceptFailure(_) => "failed to accept a connection"@,
            Error::BenignDisconnect => "peer disconnected after the exchange"@,
            Error::ServeFailure => "failed to serve a connection"@,
        }
    }

    /// See [`Error::of_decode`].
    pub fn from_decode(e: DecodeError) -> (error: Error)
        ensures
            error == Error::of_decode(e),
            error.is_pre_flight(),
    {
        match e {
            DecodeError::SchemeMismatch => Error::InvalidAddress,
            DecodeError::MalformedHost => Error::MalformedHost,
        }
    }

    /// See [`Error::is_returned`].
    pub fn returned_to_caller(&self) -> (returned: bool)
        ensures
            returned == self.is_returned(),
    {
        match self {
            Error::InvalidAddress | Error::MalformedHost | Error::DialFailure(_) | Error::BindFailure(_) => true,
            Error::AcceptFailure(_) | Error::BenignDisconnect | Error::ServeFailure => false,
        }
    }

    /// What the system said, for the failures that come from it.
    pub fn os_error(&self) -> (kind: Option<OsErrorKind>)
        ensures
            kind == match *self {
                Error::DialFailure(k) | Error::BindFailure(k) | Error::AcceptFailure(k) => Some(k),
                _ => None,
            },
    {
        match self {
            Error::DialFailure(k) | Error::BindFailure(k) | Error::AcceptFailure(k) => Some(*k),
            _ => None,
        }
    }

    /// See [`Error::text`].
    pub fn message(&self) -> (text: String)
        ensures
            text@ == self.text(),
    {
        match self {
            Error::InvalidAddress => String::from_str("invalid URL, scheme must be unix"),
            Error::MalformedHost => String::from_str("invalid URL, host must be a hex-encoded path"),
            Error::DialFailure(_) => String::from_str("failed to connect to the socket"),
            Error::BindFailure(_) => String::from_str("failed to bind the socket"),
            Error::AcceptFailure(_) => String::from_str("failed to accept a connection"),
            Error::BenignDisconnect => String::from_str("peer disconnected after the exchange"),
            Error::ServeFailure => String::from_str("failed to serve a connection"),
        }
    }
}

} // verus!
