//! Client and server configuration.

use vstd::prelude::*;
use crate::clockwork::connection::RemoteAddr;

verus! {

/// Client and server configuration.
#[derive(Copy, Clone, Debug, PartialEq)]
pub struct Config {
    /// Number of packets send per second during game setup or pause,
    /// defaulting to `10`.
    pub low_tick_rate: u64,
    /// Number of packets send per second during game synchronization,
    /// defaulting to `30`.
    pub high_tick_rate: u64,
    /// Maximum bytes that can be received or send in one packet, defaulting to
    /// `1400`.
    pub packet_max_size: usize,
    /// 32-Bit Protocol ID used to identify game packets, defaulting to
    /// `[1, 2, 3, 4]`.
    pub protocol_header: [u8; 4],
    /// Local address for a server to bind to for receiving data, defaulting to
    /// `0.0.0.0:7156`.
    pub server_addr: RemoteAddr,
    /// Maximum number of clients allowed to connect to a server, defaulting to
    /// `16`.
    pub server_max_clients: u8,
    /// Remote address for a client to connect to, defaulting to
    /// `127.0.0.1:7156`.
    pub remote_addr: RemoteAddr,
    /// Maximum time in milliseconds between any two packets before a
    /// remote is considered pending, defaulting to `500`.
    pub remote_pending_threshold: u64,
    /// Maximum time in milliseconds between any two packets before a
    /// remote is fully timed out and disconnected from a server, defaulting
    /// to `1000`.
    pub remote_timeout_threshold: u64,
}

impl Config {
    /// Both tick rates give a whole, positive number of milliseconds per
    /// packet.
    pub open spec fn valid(&self) -> bool {
        &&& 1 <= self.low_tick_rate <= 1000
        &&& 1 <= self.high_tick_rate <= 1000
    }

    /// Whether the configuration can pace a session.
    pub fn is_valid(&self) -> (r: bool)
        ensures
            r == self.valid(),
    {
        1 <= self.low_tick_rate && self.low_tick_rate <= 1000 && 1 <= self.high_tick_rate
            && self.high_tick_rate <= 1000
    }

    /// The server port on this machine.
    pub open spec fn local_server(&self) -> RemoteAddr {
        RemoteAddr { ip: [127u8, 0u8, 0u8, 1u8], port: self.server_addr.port }
    }

    /// The server port at the address of a remote.
    pub open spec fn remote_host(&self, address: RemoteAddr) -> RemoteAddr {
        RemoteAddr { ip: address.ip, port: self.server_addr.port }
    }

    /// Return the local server address for use in host migration.
    pub fn local_server_addr(&self) -> (r: RemoteAddr)
        ensures
            r == self.local_server(),
    {
        let r = RemoteAddr::new([127, 0, 0, 1], self.server_addr.port);
        assert(r.ip@ =~= self.local_server().ip@);
        r
    }

    /// Returns the remote server address for use in host migration.
    pub fn remote_host_addr(&self, address: RemoteAddr) -> (r: RemoteAddr)
        ensures
            r == self.remote_host(address),
    {
        RemoteAddr::new(address.ip, self.server_addr.port)
    }
}

impl Default for Config {
    fn default() -> (r: Self)
        ensures
            r.valid(),
            r.low_tick_rate == 10,
            r.high_tick_rate == 30,
            r.packet_max_size == 1400,
            r.protocol_header@ == seq![1u8, 2u8, 3u8, 4u8],
            r.server_addr.ip@ == seq![0u8, 0u8, 0u8, 0u8],
            r.server_addr.port == 7156,
            r.server_max_clients == 16,
            r.remote_addr.ip@ == seq![127u8, 0u8, 0u8, 1u8],
            r.remote_addr.port == 7156,
            r.remote_pending_threshold == 500,
            r.remote_timeout_threshold == 1000,
    {
        let r = Config {
            high_tick_rate: 30,
            low_tick_rate: 10,
            protocol_header: [1, 2, 3, 4],
            packet_max_size: 1400,
            server_addr: RemoteAddr::new([0, 0, 0, 0], 7156),
            server_max_clients: 16,
            remote_addr: RemoteAddr::new([127, 0, 0, 1], 7156),
            remote_pending_threshold: 500,
            remote_timeout_threshold: 1000,
        };
        assert(r.protocol_header@ =~= seq![1u8, 2u8, 3u8, 4u8]);
        assert(r.server_addr.ip@ =~= seq![0u8, 0u8, 0u8, 0u8]);
        assert(r.remote_addr.ip@ =~= seq![127u8, 0u8, 0u8, 1u8]);
        r
    }
}

} // verus!
