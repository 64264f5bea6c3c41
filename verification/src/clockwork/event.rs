//! What a session tells the application.

use vstd::prelude::*;
use crate::clockwork::connection::RemoteAddr;
use crate::clockwork::ids::{ConnectionID, HostID};

verus! {

/// Enumeration of all possible clockwork client errors.
#[derive(Debug, PartialEq, Eq, Structural, Copy, Clone)]
pub enum Error {
    /// No packet came from the host within the timeout threshold.
    RemoteTimeout,
    /// The connection was shut down.
    Disconnected,
    /// The transport failed.
    Io,
}

/// Enumeration of all possible clockwork client events.
#[derive(Debug, PartialEq, Eq, Copy, Clone)]
pub enum Event {
    HostConnect(RemoteAddr, HostID, ConnectionID),
    HostReady(RemoteAddr, HostID, ConnectionID),
    HostReconnect(RemoteAddr, HostID, ConnectionID),
    RemoteJoined(RemoteAddr, ConnectionID),
    RemoteOptions,
    RemoteLeft(RemoteAddr, ConnectionID),
    Error(Error),
}

} // verus!
