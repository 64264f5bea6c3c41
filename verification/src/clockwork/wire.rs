//! The packet header: protocol magic, sender and tick.
//!
//! Every packet starts with the four bytes of the protocol magic, the
//! sender's identifier as four bytes, highest first, and one byte for the
//! sender's tick. What follows depends on the tick.

use vstd::prelude::*;
use crate::clockwork::config::Config;
use crate::clockwork::ids::{ConnectionID, HostID};

verus! {

/// Length of the packet header.
pub const HEADER_LEN: usize = 9;

/// The four bytes of an identifier, highest first.
pub open spec fn id_octets(id: u32) -> Seq<u8> {
    seq![
        (id / 0x100_0000) as u8,
        ((id / 0x1_0000) % 0x100) as u8,
        ((id / 0x100) % 0x100) as u8,
        (id % 0x100) as u8,
    ]
}

/// The identifier that four bytes stand for, highest first.
pub open spec fn id_of_octets(b0: u8, b1: u8, b2: u8, b3: u8) -> u32 {
    (b0 * 0x100_0000 + b1 * 0x1_0000 + b2 * 0x100 + b3) as u32
}

/// The header of a packet of `id` in tick `tick`.
pub open spec fn header(magic: Seq<u8>, id: u32, tick: u8) -> Seq<u8> {
    magic + id_octets(id) + seq![tick]
}

/// Whether a packet is long enough for a header and starts with the
/// protocol magic.
pub open spec fn well_framed(magic: Seq<u8>, packet: Seq<u8>) -> bool {
    packet.len() >= HEADER_LEN && packet.subrange(0, 4) == magic
}

/// The sender that a packet names, where the packet is well framed.
pub open spec fn packet_sender(magic: Seq<u8>, packet: Seq<u8>) -> Option<ConnectionID> {
    if well_framed(magic, packet) {
        Some(ConnectionID { id: id_of_octets(packet[4], packet[5], packet[6], packet[7]) })
    } else {
        None
    }
}

/// Extracts the sender of a packet. Packets that are shorter than a header,
/// or that start with anything but the protocol magic, have no sender.
pub fn connection_id_from_packet(config: &Config, packet: &[u8]) -> (r: Option<ConnectionID>)
    ensures
        r == packet_sender(config.protocol_header@, packet@),
{
    if packet.len() >= HEADER_LEN && packet[0] == config.protocol_header[0] && packet[1]
        == config.protocol_header[1] && packet[2] == config.protocol_header[2] && packet[3]
        == config.protocol_header[3] {
        let b0 = packet[4];
        let b1 = packet[5];
        let b2 = packet[6];
        let b3 = packet[7];
        let id: u32 = (b0 as u32) << 24 | (b1 as u32) << 16 | (b2 as u32) << 8 | (b3 as u32);
        assert(id == b0 * 0x100_0000 + b1 * 0x1_0000 + b2 * 0x100 + b3) by (bit_vector)
            requires
                id == (b0 as u32) << 24 | (b1 as u32) << 16 | (b2 as u32) << 8 | (b3 as u32),
        ;
        assert(packet@.subrange(0, 4) =~= config.protocol_header@);
        Some(ConnectionID::new(id))
    } else {
        proof {
            if packet@.len() >= HEADER_LEN {
                let head = packet@.subrange(0, 4);
                assert(head[0] == packet@[0] && head[1] == packet@[1] && head[2] == packet@[2]
                    && head[3] == packet@[3]);
            }
        }
        None
    }
}

/// Builds the header of a packet of `id` in the tick with code `tick`.
pub fn base_packet(id: ConnectionID, config: &Config, tick: u8) -> (packet: Vec<u8>)
    ensures
        packet@ == header(config.protocol_header@, id@, tick),
{
    let raw = id.raw();
    let mut packet = Vec::new();
    packet.push(config.protocol_header[0]);
    packet.push(config.protocol_header[1]);
    packet.push(config.protocol_header[2]);
    packet.push(config.protocol_header[3]);
    packet.push(#[verifier::truncate] ((raw >> 24) as u8));
    packet.push(#[verifier::truncate] ((raw >> 16) as u8));
    packet.push(#[verifier::truncate] ((raw >> 8) as u8));
    packet.push(#[verifier::truncate] (raw as u8));
    packet.push(tick);
    assert((raw >> 24) as u8 == (raw / 0x100_0000) as u8) by (bit_vector);
    assert((raw >> 16) as u8 == ((raw / 0x1_0000) % 0x100) as u8) by (bit_vector);
    assert((raw >> 8) as u8 == ((raw / 0x100) % 0x100) as u8) by (bit_vector);
    assert(raw as u8 == (raw % 0x100) as u8) by (bit_vector);
    assert(packet@ =~= header(config.protocol_header@, id@, tick));
    packet
}

/// A packet that starts with the header of `id` names `id` as its sender,
/// whatever follows the header: the header routes the packet.
pub proof fn header_names_its_sender(magic: Seq<u8>, id: ConnectionID, tick: u8, payload: Seq<u8>)
    requires
        magic.len() == 4,
    ensures
        packet_sender(magic, header(magic, id@, tick) + payload) == Some(id),
        (header(magic, id@, tick) + payload)[8] == tick,
        (header(magic, id@, tick) + payload).subrange(HEADER_LEN as int, HEADER_LEN + payload.len()) == payload,
{
    let packet = header(magic, id@, tick) + payload;
    let raw = id@;
    assert(packet.subrange(0, 4) =~= magic);
    let o = id_octets(raw);
    assert(packet[4] == o[0] && packet[5] == o[1] && packet[6] == o[2] && packet[7] == o[3]);
    assert(raw == ((raw / 0x100_0000) as u8) * 0x100_0000 + (((raw / 0x1_0000) % 0x100) as u8) * 0x1_0000
        + (((raw / 0x100) % 0x100) as u8) * 0x100 + ((raw % 0x100) as u8)) by (bit_vector);
    assert(packet.subrange(HEADER_LEN as int, HEADER_LEN + payload.len()) =~= payload);
}

/// A packet that does not start with the protocol magic names no sender.
pub proof fn foreign_magic_names_no_sender(magic: Seq<u8>, packet: Seq<u8>)
    requires
        magic.len() == 4,
        packet.len() < 4 || packet.subrange(0, 4) != magic,
    ensures
        packet_sender(magic, packet) is None,
{
}

/// The bytes that bincode writes for an identifier.
pub uninterp spec fn bincode_id(id: u32) -> Option<Seq<u8>>;

/// The identifier that bincode reads from the start of a byte string, where
/// it reads one.
pub uninterp spec fn bincode_id_parsed(bytes: Seq<u8>) -> Option<u32>;

/// Calls `bincode::serialize` without a size limit on the identifier. The
/// result is named by `bincode_id`; what was written reads back as the same
/// identifier, as bincode promises of its two functions.
#[verifier::external_body]
fn bincode_write_id(id: u32) -> (r: Option<Vec<u8>>)
    ensures
        r.is_some() == bincode_id(id).is_some(),
        r matches Some(bytes) ==> bincode_id(id) == Some(bytes@) && bincode_id_parsed(bytes@)
            == Some(id),
{
    bincode::serialize(&id, bincode::Infinite).ok()
}

/// Calls `bincode::deserialize` for an identifier. The result is named by
/// `bincode_id_parsed`.
#[verifier::external_body]
fn bincode_read_id(bytes: &[u8]) -> (r: Option<u32>)
    ensures
        r == bincode_id_parsed(bytes@),
{
    bincode::deserialize::<u32>(bytes).ok()
}

impl HostID {
    /// The bytes that announce this host to a client.
    pub open spec fn encoded(self) -> Option<Seq<u8>> {
        bincode_id(self@)
    }

    /// The host that the payload of an announcement names.
    pub open spec fn decoded(bytes: Seq<u8>) -> Option<HostID> {
        match bincode_id_parsed(bytes) {
            Some(id) => Some(HostID { id }),
            None => None,
        }
    }

    /// Encodes the host for an announcement. What comes out decodes to the
    /// same host.
    pub fn encode(&self) -> (r: Option<Vec<u8>>)
        ensures
            r.is_some() == self.encoded().is_some(),
            r matches Some(bytes) ==> self.encoded() == Some(bytes@) && Self::decoded(bytes@)
                == Some(*self),
    {
        bincode_write_id(self.raw())
    }

    /// Decodes the host from the payload of an announcement.
    pub fn decode(bytes: &[u8]) -> (r: Option<HostID>)
        ensures
            r == Self::decoded(bytes@),
    {
        match bincode_read_id(bytes) {
            Some(id) => Some(HostID::new(ConnectionID::new(id))),
            None => None,
        }
    }
}

} // verus!
