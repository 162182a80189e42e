//! The outbound connector: which socket an address asks for, and what a
//! dial comes to.

use crate::error::{Error, OsErrorKind};
use crate::uri::{decode_parts, socket_path, text_of, DecodeError};
use vstd::prelude::*;

verus! {

/// The path to dial for an address with this scheme and host, or the
/// failure that is found before anything is dialed.
pub open spec fn dial_target(scheme: Option<Seq<char>>, host: Option<Seq<char>>) -> Result<
    Seq<u8>,
    Error,
> {
    match socket_path(scheme, host) {
        Ok(path) => Ok(path),
        Err(e) => Err(Error::of_decode(e)),
    }
}

/// The outcome of a dial: success as it is, a refusal of the system as a
/// `DialFailure` that holds what the system said.
pub open spec fn dial_outcome(opened: Result<(), OsErrorKind>) -> Result<(), Error> {
    match opened {
        Ok(()) => Ok(()),
        Err(kind) => Err(Error::DialFailure(kind)),
    }
}

/// Finds the socket path in the scheme and host of a URI.
///
/// A scheme other than `unix` gives `InvalidAddress` whatever the host is;
/// a host that is missing or is not the hex text of a non-empty path gives
/// `MalformedHost`.
pub fn parse_socket_path(scheme: Option<&str>, host: Option<&str>) -> (path: Result<Vec<u8>, Error>)
    ensures
        match path {
            Ok(p) => dial_target(text_of(scheme), text_of(host)) == Ok::<Seq<u8>, Error>(p@),
            Err(e) => dial_target(text_of(scheme), text_of(host)) == Err::<Seq<u8>, Error>(e),
        },
        path matches Err(e) ==> e.is_pre_flight(),
{
    match decode_parts(scheme, host) {
        Ok(p) => Ok(p),
        Err(e) => Err(Error::from_decode(e)),
    }
}

/// A dial that has been decided on and not yet made: the one socket path
/// that the address stands for. It is used up by its outcome, so a dial is
/// made once and never again.
#[derive(Debug)]
pub struct Dial {
    path: Vec<u8>,
}

impl View for Dial {
    type V = Seq<u8>;

    closed spec fn view(&self) -> Seq<u8> {
        self.path@
    }
}

impl Dial {
    /// The socket path to open.
    pub fn path(&self) -> (path: &Vec<u8>)
        ensures
            path@ == self@,
    {
        &self.path
    }

    /// Ends the dial with what the system answered: success, or a
    /// `DialFailure` that holds the system's error unchanged.
    pub fn finish(self, opened: Result<(), OsErrorKind>) -> (outcome: Result<(), Error>)
        ensures
            outcome == dial_outcome(opened),
            outcome matches Err(e) ==> !e.is_pre_flight() && e.is_returned(),
    {
        match opened {
            Ok(()) => Ok(()),
            Err(kind) => Err(Error::DialFailure(kind)),
        }
    }
}

/// Connects an HTTP client to a Unix domain socket.
#[derive(Clone, Copy, Debug, Default)]
pub struct UnixConnector;

impl UnixConnector {
    /// Whether the connector can take a request: always.
    pub fn poll_ready(&self) -> (ready: bool)
        ensures
            ready,
    {
        true
    }

    /// Decides the dial for a URI with this scheme and host. Either there
    /// is exactly one socket path to open, or the address is refused and
    /// no socket call is to be made.
    pub fn call(&self, scheme: Option<&str>, host: Option<&str>) -> (dial: Result<Dial, Error>)
        ensures
            match dial {
                Ok(d) => dial_target(text_of(scheme), text_of(host)) == Ok::<Seq<u8>, Error>(d@),
                Err(e) => dial_target(text_of(scheme), text_of(host)) == Err::<Seq<u8>, Error>(e),
            },
            dial matches Err(e) ==> e.is_pre_flight(),
    {
        match parse_socket_path(scheme, host) {
            Ok(path) => Ok(Dial { path }),
            Err(e) => Err(e),
        }
    }
}

/// A wrong scheme is an invalid address for every host.
pub proof fn lemma_wrong_scheme_is_invalid_address(
    scheme: Option<Seq<char>>,
    host: Option<Seq<char>>,
)
    requires
        scheme != Some(crate::uri::scheme_text()),
    ensures
        dial_target(scheme, host) == Err::<Seq<u8>, Error>(Error::InvalidAddress),
{
}

/// Every failure of a dial is either found before the dial or is a
/// `DialFailure`, and each is returned to the caller.
pub proof fn lemma_dial_failures(
    scheme: Option<Seq<char>>,
    host: Option<Seq<char>>,
    opened: Result<(), OsErrorKind>,
)
    ensures
        dial_target(scheme, host) matches Err(e) ==> e.is_pre_flight() && e.is_returned(),
        dial_outcome(opened) matches Err(e) ==> e is DialFailure && e.is_returned(),
        opened is Ok ==> dial_outcome(opened) is Ok,
{
}

} // verus!
