//! What a participant knows of another one: its identity, where its
//! packets come from, and its place in the migration order.

use vstd::prelude::*;
use crate::clockwork::ids::ConnectionID;

verus! {

/// An IPv4 address and port.
#[derive(Debug, PartialEq, Eq, Hash, Copy, Clone)]
pub struct RemoteAddr {
    pub ip: [u8; 4],
    pub port: u16,
}

impl RemoteAddr {
    /// An address of four octets and a port.
    pub fn new(ip: [u8; 4], port: u16) -> (r: Self)
        ensures
            r.ip == ip,
            r.port == port,
    {
        Self { ip, port }
    }

    /// Whether both name the same address and port.
    pub fn same(&self, other: &RemoteAddr) -> (r: bool)
        ensures
            r == (*self == *other),
    {
        let r = self.ip[0] == other.ip[0] && self.ip[1] == other.ip[1] && self.ip[2] == other.ip[2]
            && self.ip[3] == other.ip[3] && self.port == other.port;
        proof {
            if r {
                assert(self.ip@ =~= other.ip@);
                assert(self.ip == other.ip);
            }
        }
        r
    }
}

/// Remote connection information.
#[derive(Debug, PartialEq, Eq, Copy, Clone)]
pub struct RemoteConnection {
    /// The unique client id.
    pub id: ConnectionID,
    /// Address of the client.
    pub address: RemoteAddr,
    /// Order of the client when performing host migration.
    pub order: u8,
}

/// The bytes that bincode writes for a connection record, given as its
/// fields: identifier, address octets, port and migration order.
pub uninterp spec fn bincode_connection(id: u32, ip: Seq<u8>, port: u16, order: u8) -> Option<Seq<u8>>;

/// The connection record that bincode reads from a byte string, as its
/// fields, where it reads one.
pub uninterp spec fn bincode_connection_parsed(bytes: Seq<u8>) -> Option<(u32, Seq<u8>, u16, u8)>;

/// Calls `bincode::serialize` without a size limit on the record's fields in
/// their order of declaration. The result is named by `bincode_connection`;
/// what was written reads back as the same fields, as bincode promises of its
/// two functions.
#[verifier::external_body]
fn bincode_write_connection(id: u32, ip: [u8; 4], port: u16, order: u8) -> (r: Option<Vec<u8>>)
    ensures
        r.is_some() == bincode_connection(id, ip@, port, order).is_some(),
        r matches Some(bytes) ==> bincode_connection(id, ip@, port, order) == Some(bytes@)
            && bincode_connection_parsed(bytes@) == Some((id, ip@, port, order)),
{
    bincode::serialize(&(id, ip, port, order), bincode::Infinite).ok()
}

/// Calls `bincode::deserialize` for the fields of a connection record. The
/// result is named by `bincode_connection_parsed`.
#[verifier::external_body]
fn bincode_read_connection(bytes: &[u8]) -> (r: Option<(u32, [u8; 4], u16, u8)>)
    ensures
        r.is_some() == bincode_connection_parsed(bytes@).is_some(),
        r matches Some(f) ==> bincode_connection_parsed(bytes@) == Some((f.0, f.1@, f.2, f.3)),
{
    bincode::deserialize::<(u32, [u8; 4], u16, u8)>(bytes).ok()
}

impl RemoteConnection {
    /// A connection of `id` at `address`.
    pub fn new(id: ConnectionID, address: RemoteAddr, order: u8) -> (r: Self)
        ensures
            r.id == id,
            r.address == address,
            r.order == order,
    {
        Self { id, address, order }
    }

    /// The identifier of the participant.
    pub fn id(&self) -> (r: ConnectionID)
        ensures
            r == self.id,
    {
        self.id
    }

    /// The address that the participant's packets come from.
    pub fn address(&self) -> (r: RemoteAddr)
        ensures
            r == self.address,
    {
        self.address
    }

    /// Follows the participant to a new address.
    pub fn set_address(&mut self, address: RemoteAddr)
        ensures
            *final(self) == (RemoteConnection { address, ..*old(self) }),
    {
        self.address = address;
    }

    /// The place of the participant in the migration order; the lowest hosts
    /// next.
    pub fn order(&self) -> (r: u8)
        ensures
            r == self.order,
    {
        self.order
    }

    /// Gives the participant a place in the migration order.
    pub fn set_order(&mut self, order: u8)
        ensures
            *final(self) == (RemoteConnection { order, ..*old(self) }),
    {
        self.order = order;
    }

    /// The bytes that stand for this connection in a roster packet.
    pub open spec fn encoded(self) -> Option<Seq<u8>> {
        bincode_connection(self.id@, self.address.ip@, self.address.port, self.order)
    }

    /// The connection that a slice of a roster packet stands for.
    pub open spec fn decoded(bytes: Seq<u8>) -> Option<RemoteConnection> {
        match bincode_connection_parsed(bytes) {
            Some(f) => if f.1.len() == 4 {
                Some(
                    RemoteConnection {
                        id: ConnectionID { id: f.0 },
                        address: RemoteAddr { ip: array_of(f.1), port: f.2 },
                        order: f.3,
                    },
                )
            } else {
                None
            },
            None => None,
        }
    }

    /// Encodes the connection. What comes out decodes to the same connection.
    pub fn encode(&self) -> (r: Option<Vec<u8>>)
        ensures
            r.is_some() == self.encoded().is_some(),
            r matches Some(bytes) ==> self.encoded() == Some(bytes@) && Self::decoded(bytes@)
                == Some(*self),
    {
        let r = bincode_write_connection(self.id.raw(), self.address.ip, self.address.port, self.order);
        proof {
            if r.is_some() {
                assert(self.address.ip@.len() == 4);
                assert(array_of(self.address.ip@)@ =~= self.address.ip@);
                assert(array_of(self.address.ip@) == self.address.ip);
            }
        }
        r
    }

    /// Decodes a connection from a slice of a roster packet.
    pub fn decode(bytes: &[u8]) -> (r: Option<RemoteConnection>)
        ensures
            r == Self::decoded(bytes@),
    {
        match bincode_read_connection(bytes) {
            Some((id, ip, port, order)) => {
                proof {
                    assert(array_of(ip@)@ =~= ip@);
                    assert(array_of(ip@) == ip);
                }
                Some(RemoteConnection::new(ConnectionID::new(id), RemoteAddr::new(ip, port), order))
            },
            None => None,
        }
    }
}

/// The address octets as an array.
pub open spec fn array_of(octets: Seq<u8>) -> [u8; 4] {
    [octets[0], octets[1], octets[2], octets[3]]
}

} // verus!
