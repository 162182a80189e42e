//! HTTP over Unix domain sockets: the address codec that makes a socket
//! path look like a URI, and the decisions of the connector and of the
//! serving loop, stated and proved.

pub mod base16;
pub mod client;
pub mod error;
pub mod server;
pub mod uri;

pub use client::UnixConnector;
pub use error::Error;
pub use server::ServeLoop;
pub use uri::Uri;
