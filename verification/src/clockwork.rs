//! A server / client lockstep protocol with automatic host migration, kept
//! free of sockets, clocks and threads: every step takes the packets that
//! arrived and the current time, and gives back the packets to send.

pub mod ids;
pub mod tick;
pub mod connection;
pub mod options;
pub mod input;
pub mod traits;
pub mod config;
pub mod wire;
pub mod client_remote;
pub mod server_remote;
pub mod server;
pub mod event;
pub mod client;
pub mod session;
pub mod laws;

pub use ids::{ConnectionID, HostID};
pub use tick::{ClientTick, ServerTick};
pub use connection::{RemoteAddr, RemoteConnection};
pub use options::RemoteOptions;
pub use input::RemoteInput;
pub use traits::{Input, Options, State};
pub use config::Config;
pub use wire::{base_packet, connection_id_from_packet};
pub use client_remote::{ClientEvent, ClientRemote};
pub use event::{Error, Event};
pub use server_remote::ServerRemote;
pub use server::ClockworkServer;
pub use client::{ClockworkClient, Migration, NetworkStatus, StateCall};
pub use session::{create_server, Clockwork, Mode, Polled};
