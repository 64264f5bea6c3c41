//! Identities of the participants of a session.

use vstd::prelude::*;

verus! {

/// Unique ID for connection identification.
#[derive(Debug, PartialEq, Eq, Structural, Hash, Copy, Clone)]
pub struct ConnectionID {
    pub id: u32,
}

/// A variant of a `ConnectionID` which references the remote that hosts the game.
#[derive(Debug, PartialEq, Eq, Structural, Hash, Copy, Clone)]
pub struct HostID {
    pub id: u32,
}

impl View for ConnectionID {
    type V = u32;

    open spec fn view(&self) -> u32 {
        self.id
    }
}

impl View for HostID {
    type V = u32;

    open spec fn view(&self) -> u32 {
        self.id
    }
}

impl ConnectionID {
    /// Wraps a raw 32-bit identifier.
    pub fn new(id: u32) -> (r: Self)
        ensures
            r@ == id,
    {
        Self { id }
    }

    /// The raw 32-bit identifier.
    pub fn raw(&self) -> (r: u32)
        ensures
            r == self@,
    {
        self.id
    }

    /// The identifier of the connection that `host_id` names as host.
    pub fn from(host_id: HostID) -> (r: ConnectionID)
        ensures
            r@ == host_id@,
    {
        ConnectionID { id: host_id.id }
    }

    /// Whether this connection is the one that `host` names.
    pub fn is_host(&self, host: &HostID) -> (r: bool)
        ensures
            r == (self@ == host@),
    {
        self.id == host.id
    }
}

impl HostID {
    /// Promotes a connection to host.
    pub fn new(id: ConnectionID) -> (r: Self)
        ensures
            r@ == id@,
    {
        Self { id: id.id }
    }

    /// The raw 32-bit identifier.
    pub fn raw(&self) -> (r: u32)
        ensures
            r == self@,
    {
        self.id
    }

    /// Whether this host is the connection `id`.
    pub fn is_connection(&self, id: &ConnectionID) -> (r: bool)
        ensures
            r == (self@ == id@),
    {
        self.id == id.id
    }
}

} // verus!
