//! The client's side of one connection: what it sends in each tick, and how
//! a packet from the host moves it on.

use vstd::prelude::*;
use vstd::slice::slice_subrange;
use crate::clockwork::config::Config;
use crate::clockwork::connection::{RemoteAddr, RemoteConnection};
use crate::clockwork::ids::{ConnectionID, HostID};
use crate::clockwork::input::RemoteInput;
use crate::clockwork::options::RemoteOptions;
use crate::clockwork::tick::{ClientTick, ServerTick};
use crate::clockwork::traits::{Input, Options};
use crate::clockwork::wire::{base_packet, HEADER_LEN};

verus! {

/// What a packet from the host told the client.
pub enum ClientEvent<O, I> {
    Connected(ConnectionID),
    Options(Vec<RemoteOptions<O>>),
    Ready(Option<Vec<RemoteConnection>>),
    Inputs(u8, Vec<RemoteInput<I>>),
}

/// A `ClientEvent` with its lists as sequences.
pub enum ClientSignal<O, I> {
    Connected(ConnectionID),
    Options(Seq<RemoteOptions<O>>),
    Ready(Option<Seq<RemoteConnection>>),
    Inputs(u8, Seq<RemoteInput<I>>),
}

impl<O, I> View for ClientEvent<O, I> {
    type V = ClientSignal<O, I>;

    open spec fn view(&self) -> ClientSignal<O, I> {
        match self {
            ClientEvent::Connected(id) => ClientSignal::Connected(*id),
            ClientEvent::Options(options) => ClientSignal::Options(options@),
            ClientEvent::Ready(Some(roster)) => ClientSignal::Ready(Some(roster@)),
            ClientEvent::Ready(None) => ClientSignal::Ready(None),
            ClientEvent::Inputs(ticks, inputs) => ClientSignal::Inputs(*ticks, inputs@),
        }
    }
}

/// Whether `count` equal slices fill a payload of `body` bytes.
pub open spec fn evenly_sliced(body: int, count: int) -> bool {
    count > 0 && body % count == 0
}

/// The `index`-th of the `count` equal slices that follow the count byte.
pub open spec fn payload_slice(packet: Seq<u8>, count: int, index: int) -> Seq<u8> {
    let size = (packet.len() - 10) / count;
    packet.subrange(10 + index * size, 10 + (index + 1) * size)
}

/// The connections that the first `upto` slices of a roster hold, in the
/// order of the slices. A slice that does not decode is passed over.
pub open spec fn decoded_roster(packet: Seq<u8>, count: int, upto: int) -> Seq<RemoteConnection>
    decreases upto,
{
    if upto <= 0 {
        Seq::empty()
    } else {
        let before = decoded_roster(packet, count, upto - 1);
        match RemoteConnection::decoded(payload_slice(packet, count, upto - 1)) {
            Some(connection) => before.push(connection),
            None => before,
        }
    }
}

/// Whether `count` records, each behind one byte with its length, stand in
/// the packet from `offset` on.
pub open spec fn records_complete(packet: Seq<u8>, offset: int, count: int) -> bool
    decreases count,
{
    if count <= 0 {
        true
    } else {
        0 <= offset < packet.len() && offset + 1 + packet[offset] <= packet.len()
            && records_complete(packet, offset + 1 + packet[offset], count - 1)
    }
}

/// Those of the first `upto` inputs that belong to `sequence`, in their
/// order.
pub open spec fn of_sequence<I>(inputs: Seq<RemoteInput<I>>, sequence: u8, upto: int) -> Seq<RemoteInput<I>>
    decreases upto,
{
    if upto <= 0 {
        Seq::empty()
    } else if inputs[upto - 1].sequence == sequence {
        of_sequence(inputs, sequence, upto - 1).push(inputs[upto - 1])
    } else {
        of_sequence(inputs, sequence, upto - 1)
    }
}

/// What a packet of the host holds for the client, once its payload is
/// decoded.
pub enum HostMessage<O, I> {
    /// Nothing that the client can read in its tick.
    Bare,
    /// The identifier of the host.
    Host(ConnectionID),
    /// The options of the remotes whose records could be decoded.
    Options(Vec<RemoteOptions<O>>),
    /// The connections of the remotes whose records could be decoded.
    Roster(Vec<RemoteConnection>),
    /// The sequence that comes next, the simulation ticks to run, the number
    /// of input records that the host declares, and those that could be
    /// decoded.
    Inputs(u8, u8, u8, Vec<RemoteInput<I>>),
}

/// A `HostMessage` with its lists as sequences.
pub enum HostContent<O, I> {
    Bare,
    Host(ConnectionID),
    Options(Seq<RemoteOptions<O>>),
    Roster(Seq<RemoteConnection>),
    Inputs(u8, u8, u8, Seq<RemoteInput<I>>),
}

impl<O, I> View for HostMessage<O, I> {
    type V = HostContent<O, I>;

    open spec fn view(&self) -> HostContent<O, I> {
        match self {
            HostMessage::Bare => HostContent::Bare,
            HostMessage::Host(id) => HostContent::Host(*id),
            HostMessage::Options(options) => HostContent::Options(options@),
            HostMessage::Roster(roster) => HostContent::Roster(roster@),
            HostMessage::Inputs(next, ticks, declared, inputs) => HostContent::Inputs(
                *next,
                *ticks,
                *declared,
                inputs@,
            ),
        }
    }
}

/// What the payload of a packet can be read as by a client in tick `own`.
/// Framing and the records of the library's own types are pinned down; of
/// the application's records only their number is bounded, since the
/// application's codec decides which of them decode.
pub open spec fn reads_as<O, I>(own: ClientTick, packet: Seq<u8>, content: HostContent<O, I>) -> bool {
    let host = ServerTick::of_code(packet[8]);
    let announced = own == ClientTick::WaitForServer && (host == ServerTick::Migrate || host
        == ServerTick::WaitForClients) && packet.len() >= 10;
    let confirmed = own == ClientTick::SendOptions && host == ServerTick::ConfirmOptions
        && packet.len() > 10 && evenly_sliced(packet.len() - 10, packet[9] as int);
    let listed = own == ClientTick::Ready && host == ServerTick::Initialize && packet.len() >= 10
        && evenly_sliced(packet.len() - 10, packet[9] as int);
    let played = own == ClientTick::SendInput && host == ServerTick::AwaitInput && packet.len()
        >= 12 && packet[11] > 0 && records_complete(packet, 12, packet[11] as int);
    match content {
        HostContent::Bare => !confirmed && !listed && !played && (announced
            ==> crate::clockwork::wire::bincode_id_parsed(
            packet.subrange(HEADER_LEN as int, packet.len() as int),
        ) is None),
        HostContent::Host(id) => announced && crate::clockwork::wire::bincode_id_parsed(
            packet.subrange(HEADER_LEN as int, packet.len() as int),
        ) == Some(id@),
        HostContent::Options(options) => confirmed && options.len() <= packet[9],
        HostContent::Roster(roster) => listed && roster == decoded_roster(
            packet,
            packet[9] as int,
            packet[9] as int,
        ),
        HostContent::Inputs(next, ticks, declared, inputs) => played && next == packet[9] && ticks
            == packet[10] && declared == packet[11] && inputs.len() <= declared,
    }
}

/// The pairs of own tick and host tick that the client has an answer to.
/// A packet with any other pair is dropped.
pub open spec fn client_accepts(own: ClientTick, host: ServerTick) -> bool {
    match (own, host) {
        (ClientTick::WaitForServer, ServerTick::Migrate) => true,
        (ClientTick::WaitForServer, ServerTick::WaitForClients) => true,
        (ClientTick::WaitForServer, ServerTick::InitializeMigrate) => true,
        (ClientTick::SendOptions, ServerTick::AwaitOptions) => true,
        (ClientTick::SendOptions, ServerTick::WaitForClients) => true,
        (ClientTick::SendOptions, ServerTick::ConfirmOptions) => true,
        (ClientTick::Ready, ServerTick::Migrate) => true,
        (ClientTick::Ready, ServerTick::Initialize) => true,
        (ClientTick::Ready, ServerTick::InitializeMigrate) => true,
        (ClientTick::SyncConfirm, ServerTick::InitializeMigrate) => true,
        (ClientTick::SyncConfirm, ServerTick::AwaitInput) => true,
        (ClientTick::SendInput, ServerTick::AwaitInput) => true,
        _ => false,
    }
}

/// The bytes of an encoded record, where there is one.
pub open spec fn bytes_of(encoded: Option<Vec<u8>>) -> Option<Seq<u8>> {
    match encoded {
        Some(bytes) => Some(bytes@),
        None => None,
    }
}

/// The sequence number that follows `sequence`; after 255 comes 0.
pub open spec fn sequence_after(sequence: u8) -> u8 {
    if sequence == 255 {
        0
    } else {
        (sequence + 1) as u8
    }
}

/// The sequence number that follows `sequence`; after 255 comes 0.
pub fn next_in_sequence(sequence: u8) -> (r: u8)
    ensures
        r == sequence_after(sequence),
{
    if sequence == 255 {
        0
    } else {
        sequence + 1
    }
}

/// Each of `count` equal slices of a payload of `body` bytes lies inside it.
proof fn slice_bounds(body: int, count: int, size: int, index: int)
    requires
        count > 0,
        body >= 0,
        body % count == 0,
        size == body / count,
        0 <= index < count,
    ensures
        0 <= index * size,
        index * size + size == (index + 1) * size,
        (index + 1) * size <= body,
{
    assert(size >= 0) by (nonlinear_arith)
        requires
            size == body / count,
            body >= 0,
            count > 0,
    ;
    assert(0 <= index * size) by (nonlinear_arith)
        requires
            0 <= index,
            0 <= size,
    ;
    assert(index * size + size == (index + 1) * size) by (nonlinear_arith);
    assert((index + 1) * size <= count * size) by (nonlinear_arith)
        requires
            index + 1 <= count,
            0 <= size,
    ;
    assert(count * size == body) by (nonlinear_arith)
        requires
            size == body / count,
            body % count == 0,
            count > 0,
    ;
}

/// Client side remote abstraction.
pub struct ClientRemote<O> {
    /// Current client clock tick.
    pub tick: ClientTick,
    /// The local sequence number for inputs.
    pub sequence: u8,
    /// The options that this client proposes.
    pub options: Option<RemoteOptions<O>>,
    /// Connection information of the remote.
    pub connection: RemoteConnection,
    /// Last time, in milliseconds, at which a packet was accepted.
    pub last_receive_time: u64,
}

impl<O: Options> ClientRemote<O> {
    /// A remote that waits for its server.
    pub fn new(id: ConnectionID, address: RemoteAddr, now: u64) -> (r: Self)
        ensures
            r.tick == ClientTick::WaitForServer,
            r.sequence == 0,
            r.options is None,
            r.connection == (RemoteConnection { id, address, order: 0 }),
            r.last_receive_time == now,
    {
        Self {
            tick: ClientTick::WaitForServer,
            sequence: 0,
            options: None,
            connection: RemoteConnection::new(id, address, 0),
            last_receive_time: now,
        }
    }

    /// The connection of this client.
    pub fn connection(&self) -> (r: &RemoteConnection)
        ensures
            *r == self.connection,
    {
        &self.connection
    }

    /// Whether more time than the timeout threshold has passed at `now`
    /// since the last accepted packet.
    pub open spec fn timed_out_at(&self, config: &Config, now: u64) -> bool {
        now > self.last_receive_time && now - self.last_receive_time
            > config.remote_timeout_threshold
    }

    /// Whether the host has timed out at `now`.
    pub fn timed_out(&self, config: &Config, now: u64) -> (r: bool)
        ensures
            r == self.timed_out_at(config, now),
    {
        now > self.last_receive_time && now - self.last_receive_time
            > config.remote_timeout_threshold
    }

    /// Whether the connection was shut down; no packet says so yet.
    pub fn disconnected(&self) -> (r: bool)
        ensures
            !r,
    {
        false
    }

    /// Moves the client to a tick.
    pub fn set_tick(&mut self, tick: ClientTick)
        ensures
            *final(self) == (ClientRemote { tick, ..*old(self) }),
    {
        self.tick = tick;
    }

    /// Stages the options that this client proposes.
    pub fn set_options(&mut self, options: O)
        ensures
            *final(self) == (ClientRemote {
                options: Some(RemoteOptions { id: old(self).connection.id, data: options }),
                ..*old(self)
            }),
    {
        self.options = Some(RemoteOptions::new(self.connection.id(), options));
    }

    /// Waits for the server again; the timeout counts from `now`.
    pub fn reset(&mut self, now: u64)
        ensures
            *final(self) == (ClientRemote {
                tick: ClientTick::WaitForServer,
                last_receive_time: now,
                ..*old(self)
            }),
    {
        self.tick = ClientTick::WaitForServer;
        self.last_receive_time = now;
    }

    /// The remote with `now` as the time of its last accepted packet.
    pub open spec fn seen_at(self, now: u64) -> ClientRemote<O> {
        ClientRemote { last_receive_time: now, ..self }
    }

    /// The answer to the inputs of a round: they are taken where the host
    /// announces the sequence after the client's own, declares at least one
    /// record, and as many records as it declares could be decoded and
    /// belong to the client's sequence; the client then moves to the next
    /// sequence.
    pub open spec fn acknowledged<I>(self, next: u8, ticks: u8, declared: u8, inputs: Seq<RemoteInput<I>>) -> (ClientRemote<O>, Option<ClientSignal<O, I>>) {
        let own = of_sequence(inputs, self.sequence, inputs.len() as int);
        if declared > 0 && own.len() == declared && next == sequence_after(self.sequence) {
            (
                ClientRemote { sequence: sequence_after(self.sequence), ..self },
                Some(ClientSignal::Inputs(ticks, own)),
            )
        } else {
            (self, None)
        }
    }

    /// The remote after a packet of `id` that carries the host's tick `host`
    /// and holds `content`, and what the packet tells the client.
    ///
    /// A packet for another client, and one whose tick the client has no
    /// answer to in its own tick, change nothing. Every other packet sets the
    /// time of the last accepted packet to `now`, also where it holds
    /// nothing that the client can use.
    pub open spec fn taken<I>(self, id: ConnectionID, host: ServerTick, content: HostContent<O, I>, now: u64) -> (ClientRemote<O>, Option<ClientSignal<O, I>>) {
        if id != self.connection.id || !client_accepts(self.tick, host) {
            (self, None)
        } else {
            let seen = self.seen_at(now);
            match (self.tick, host, content) {
                (ClientTick::WaitForServer, ServerTick::Migrate, HostContent::Host(host_id)) => (
                    ClientRemote { sequence: 0, tick: ClientTick::Ready, ..seen },
                    Some(ClientSignal::Connected(host_id)),
                ),
                (ClientTick::WaitForServer, ServerTick::WaitForClients, HostContent::Host(host_id)) => (
                    ClientRemote { sequence: 0, tick: ClientTick::SendOptions, ..seen },
                    Some(ClientSignal::Connected(host_id)),
                ),
                (ClientTick::SendOptions, ServerTick::ConfirmOptions, HostContent::Options(options)) => (
                    seen,
                    Some(ClientSignal::Options(options)),
                ),
                (ClientTick::Ready, ServerTick::Initialize, HostContent::Roster(roster)) => (
                    ClientRemote { tick: ClientTick::SyncConfirm, ..seen },
                    Some(ClientSignal::Ready(Some(roster))),
                ),
                (ClientTick::Ready, ServerTick::InitializeMigrate, _) => (
                    ClientRemote { tick: ClientTick::SyncConfirm, ..seen },
                    Some(ClientSignal::Ready(None)),
                ),
                (ClientTick::SyncConfirm, ServerTick::AwaitInput, _) => (
                    ClientRemote { tick: ClientTick::SendInput, ..seen },
                    None,
                ),
                (
                    ClientTick::SendInput,
                    ServerTick::AwaitInput,
                    HostContent::Inputs(next, ticks, declared, inputs),
                ) => seen.acknowledged(next, ticks, declared, inputs),
                _ => (seen, None),
            }
        }
    }

    /// Takes what a packet of `id` with the host's tick `host` holds. Gives
    /// the one event that it stands for, if any.
    pub fn take<I>(&mut self, id: ConnectionID, host: ServerTick, message: HostMessage<O, I>, now: u64) -> (r: Option<Vec<ClientEvent<O, I>>>)
        ensures
            *final(self) == old(self).taken::<I>(id, host, message@, now).0,
            r is None <==> old(self).taken::<I>(id, host, message@, now).1 is None,
            r matches Some(events) ==> events@.len() == 1 && old(self).taken::<I>(
                id,
                host,
                message@,
                now,
            ).1 == Some(events@[0]@),
    {
        if id != self.connection.id() {
            return None;
        }
        match (self.tick, host) {
            (ClientTick::WaitForServer, ServerTick::Migrate) => {
                self.last_receive_time = now;
                match message {
                    HostMessage::Host(host_id) => {
                        self.sequence = 0;
                        self.tick = ClientTick::Ready;
                        Some(vec![ClientEvent::Connected(host_id)])
                    },
                    _ => None,
                }
            },
            (ClientTick::WaitForServer, ServerTick::WaitForClients) => {
                self.last_receive_time = now;
                match message {
                    HostMessage::Host(host_id) => {
                        self.sequence = 0;
                        self.tick = ClientTick::SendOptions;
                        Some(vec![ClientEvent::Connected(host_id)])
                    },
                    _ => None,
                }
            },
            (ClientTick::WaitForServer, ServerTick::InitializeMigrate)
            | (ClientTick::SendOptions, ServerTick::AwaitOptions)
            | (ClientTick::SendOptions, ServerTick::WaitForClients)
            | (ClientTick::Ready, ServerTick::Migrate)
            | (ClientTick::SyncConfirm, ServerTick::InitializeMigrate) => {
                self.last_receive_time = now;
                None
            },
            (ClientTick::SendOptions, ServerTick::ConfirmOptions) => {
                self.last_receive_time = now;
                match message {
                    HostMessage::Options(options) => Some(vec![ClientEvent::Options(options)]),
                    _ => None,
                }
            },
            (ClientTick::Ready, ServerTick::Initialize) => {
                self.last_receive_time = now;
                match message {
                    HostMessage::Roster(roster) => {
                        self.tick = ClientTick::SyncConfirm;
                        Some(vec![ClientEvent::Ready(Some(roster))])
                    },
                    _ => None,
                }
            },
            (ClientTick::Ready, ServerTick::InitializeMigrate) => {
                self.last_receive_time = now;
                self.tick = ClientTick::SyncConfirm;
                Some(vec![ClientEvent::Ready(None)])
            },
            (ClientTick::SyncConfirm, ServerTick::AwaitInput) => {
                self.last_receive_time = now;
                self.tick = ClientTick::SendInput;
                None
            },
            (ClientTick::SendInput, ServerTick::AwaitInput) => {
                self.last_receive_time = now;
                match message {
                    HostMessage::Inputs(next, ticks, declared, inputs) => {
                        let ghost all = inputs@;
                        let mut own: Vec<RemoteInput<I>> = Vec::with_capacity(inputs.len());
                        for input in it: inputs
                            invariant
                                it.seq() == all,
                                *self == old(self).seen_at(now),
                                own@ == of_sequence(all, self.sequence, it.index() as int),
                        {
                            // Skip any mismatching sequences
                            if input.sequence == self.sequence {
                                own.push(input);
                            }
                        }
                        // The next sequence is only ever announced after the
                        // full inputs of the current one were received
                        if declared > 0 && own.len() == declared as usize && next
                            == next_in_sequence(self.sequence) {
                            self.sequence = next_in_sequence(self.sequence);
                            Some(vec![ClientEvent::Inputs(ticks, own)])
                        } else {
                            None
                        }
                    },
                    _ => None,
                }
            },
            (_, _) => None,
        }
    }

    /// Reads the payload of a packet of at least header length as the client
    /// reads it in its tick.
    pub fn open<I: Input>(&self, packet: &Vec<u8>) -> (message: HostMessage<O, I>)
        requires
            packet@.len() >= HEADER_LEN,
        ensures
            reads_as(self.tick, packet@, message@),
    {
        let host = ServerTick::from_u8(packet[8]);
        match (self.tick, host) {
            (ClientTick::WaitForServer, ServerTick::Migrate)
            | (ClientTick::WaitForServer, ServerTick::WaitForClients) => {
                if packet.len() >= 10 {
                    let payload = slice_subrange(packet.as_slice(), HEADER_LEN, packet.len());
                    match HostID::decode(payload) {
                        Some(host_id) => HostMessage::Host(ConnectionID::from(host_id)),
                        None => HostMessage::Bare,
                    }
                } else {
                    HostMessage::Bare
                }
            },
            (ClientTick::SendOptions, ServerTick::ConfirmOptions) => Self::open_options(packet),
            (ClientTick::Ready, ServerTick::Initialize) => Self::open_roster(packet),
            (ClientTick::SendInput, ServerTick::AwaitInput) => Self::open_inputs(packet),
            (_, _) => HostMessage::Bare,
        }
    }

    fn open_options<I>(packet: &Vec<u8>) -> (message: HostMessage<O, I>)
        requires
            packet@.len() >= HEADER_LEN,
        ensures
            reads_as(ClientTick::SendOptions, packet@, message@) || ServerTick::of_code(packet@[8])
                != ServerTick::ConfirmOptions,
            message is Options <==> packet@.len() > 10 && evenly_sliced(
                packet@.len() - 10,
                packet@[9] as int,
            ),
            !(message is Options) ==> message is Bare,
            message matches HostMessage::Options(options) ==> options@.len() <= packet@[9],
    {
        if packet.len() > 10 {
            let count = packet[9] as usize;
            let body = packet.len() - 10;
            if count > 0 && body % count == 0 {
                let size = body / count;
                let mut options: Vec<RemoteOptions<O>> = Vec::with_capacity(count);
                let mut i: usize = 0;
                while i < count
                    invariant
                        i <= count,
                        count == packet@[9],
                        count > 0,
                        packet@.len() > 10,
                        body == packet@.len() - 10,
                        packet@.len() <= usize::MAX,
                        size == body / count,
                        body % count == 0,
                        options@.len() <= i,
                    decreases count - i,
                {
                    proof {
                        slice_bounds(body as int, count as int, size as int, i as int);
                    }
                    let offset = 10 + i * size;
                    // The length was checked against the count above
                    let bytes = slice_subrange(packet.as_slice(), offset, offset + size);
                    match O::decode(bytes) {
                        Some(option) => {
                            options.push(option);
                        },
                        None => {},
                    }
                    i += 1;
                }
                return HostMessage::Options(options);
            }
        }
        HostMessage::Bare
    }

    fn open_roster<I>(packet: &Vec<u8>) -> (message: HostMessage<O, I>)
        requires
            packet@.len() >= HEADER_LEN,
        ensures
            message is Roster <==> packet@.len() >= 10 && evenly_sliced(
                packet@.len() - 10,
                packet@[9] as int,
            ),
            !(message is Roster) ==> message is Bare,
            message matches HostMessage::Roster(roster) ==> roster@ == decoded_roster(
                packet@,
                packet@[9] as int,
                packet@[9] as int,
            ),
    {
        if packet.len() >= 10 {
            let count = packet[9] as usize;
            let body = packet.len() - 10;
            if count > 0 && body % count == 0 {
                let size = body / count;
                let mut connections: Vec<RemoteConnection> = Vec::with_capacity(count);
                let mut i: usize = 0;
                while i < count
                    invariant
                        i <= count,
                        count == packet@[9],
                        count > 0,
                        packet@.len() >= 10,
                        body == packet@.len() - 10,
                        packet@.len() <= usize::MAX,
                        size == body / count,
                        body % count == 0,
                        connections@ == decoded_roster(packet@, count as int, i as int),
                    decreases count - i,
                {
                    proof {
                        slice_bounds(body as int, count as int, size as int, i as int);
                    }
                    let offset = 10 + i * size;
                    let bytes = slice_subrange(packet.as_slice(), offset, offset + size);
                    match RemoteConnection::decode(bytes) {
                        Some(connection) => {
                            connections.push(connection);
                        },
                        None => {},
                    }
                    i += 1;
                }
                return HostMessage::Roster(connections);
            }
        }
        HostMessage::Bare
    }

    fn open_inputs<I: Input>(packet: &Vec<u8>) -> (message: HostMessage<O, I>)
        requires
            packet@.len() >= HEADER_LEN,
        ensures
            message is Inputs <==> packet@.len() >= 12 && packet@[11] > 0 && records_complete(
                packet@,
                12,
                packet@[11] as int,
            ),
            !(message is Inputs) ==> message is Bare,
            message matches HostMessage::Inputs(next, ticks, declared, inputs) ==> next == packet@[9]
                && ticks == packet@[10] && declared == packet@[11] && inputs@.len() <= declared,
    {
        if packet.len() < 12 {
            return HostMessage::Bare;
        }
        let next_sequence = packet[9];
        let sequence_ticks = packet[10];
        let count = packet[11] as usize;
        if count == 0 {
            return HostMessage::Bare;
        }
        let mut inputs: Vec<RemoteInput<I>> = Vec::with_capacity(count);
        let mut offset: usize = 12;
        let mut i: usize = 0;
        while i < count
            invariant
                i <= count,
                count == packet@[11],
                packet@.len() >= 12,
                12 <= offset <= packet@.len(),
                inputs@.len() <= i,
                records_complete(packet@, 12, count as int) == records_complete(
                    packet@,
                    offset as int,
                    count - i,
                ),
            decreases count - i,
        {
            if offset >= packet.len() {
                return HostMessage::Bare;
            }
            let length = packet[offset] as usize;
            if length > packet.len() - offset - 1 {
                return HostMessage::Bare;
            }
            let bytes = slice_subrange(packet.as_slice(), offset + 1, offset + 1 + length);
            match I::decode(bytes) {
                Some(input) => {
                    inputs.push(input);
                },
                None => {},
            }
            offset = offset + 1 + length;
            i += 1;
        }
        HostMessage::Inputs(next_sequence, sequence_ticks, packet[11], inputs)
    }

    /// Takes a packet that names `id` as its sender: reads its payload with
    /// the codecs of the application and takes what it holds. A packet
    /// shorter than a header changes nothing.
    pub fn receive<I: Input>(&mut self, id: ConnectionID, packet: Vec<u8>, now: u64) -> (r: Option<Vec<ClientEvent<O, I>>>)
        ensures
            packet@.len() < HEADER_LEN ==> r is None && *final(self) == *old(self),
            packet@.len() >= HEADER_LEN ==> exists|content: HostContent<O, I>|
                reads_as(old(self).tick, packet@, content) && #[trigger] old(self).taken::<I>(
                    id,
                    ServerTick::of_code(packet@[8]),
                    content,
                    now,
                ).0 == *final(self) && (r is None <==> old(self).taken::<I>(
                    id,
                    ServerTick::of_code(packet@[8]),
                    content,
                    now,
                ).1 is None) && (r matches Some(events) ==> events@.len() == 1 && old(self).taken::<I>(
                    id,
                    ServerTick::of_code(packet@[8]),
                    content,
                    now,
                ).1 == Some(events@[0]@)),
    {
        if packet.len() < HEADER_LEN {
            return None;
        }
        let host = ServerTick::from_u8(packet[8]);
        let message = self.open::<I>(&packet);
        let ghost content = message@;
        let r = self.take::<I>(id, host, message, now);
        proof {
            let outcome = old(self).taken::<I>(id, ServerTick::of_code(packet@[8]), content, now);
            assert(outcome.0 == *self);
        }
        r
    }

    /// What follows the header in the packet that the client sends in its
    /// current tick, where its options and its inputs encode as given.
    pub open spec fn payload(&self, options: Option<Seq<u8>>, inputs: Option<Seq<u8>>) -> Seq<u8> {
        match self.tick {
            ClientTick::SendOptions => match options {
                Some(bytes) => bytes,
                None => Seq::empty(),
            },
            ClientTick::SendInput => seq![self.sequence] + match inputs {
                Some(bytes) => bytes,
                None => Seq::empty(),
            },
            _ => Seq::empty(),
        }
    }

    /// Builds the packet for the current tick from the encoded options and
    /// the encoded inputs, where there are any: the header, then the options
    /// in `SendOptions`, or the sequence number and the inputs in
    /// `SendInput`, and nothing in any other tick.
    pub fn frame(&self, config: &Config, options: Option<Vec<u8>>, inputs: Option<Vec<u8>>) -> (packet: Vec<u8>)
        ensures
            packet@ == crate::clockwork::wire::header(
                config.protocol_header@,
                self.connection.id@,
                self.tick.code(),
            ) + self.payload(bytes_of(options), bytes_of(inputs)),
    {
        let mut packet = base_packet(self.connection.id(), config, self.tick.to_u8());
        let ghost head = packet@;
        let ghost encoded_options = bytes_of(options);
        let ghost encoded_inputs = bytes_of(inputs);
        match self.tick {
            ClientTick::SendOptions => {
                match options {
                    Some(mut bytes) => {
                        packet.append(&mut bytes);
                    },
                    None => {},
                }
            },
            ClientTick::SendInput => {
                packet.push(self.sequence);
                match inputs {
                    Some(mut bytes) => {
                        packet.append(&mut bytes);
                    },
                    None => {},
                }
            },
            _ => {},
        }
        proof {
            assert(packet@ =~= head + self.payload(encoded_options, encoded_inputs));
        }
        packet
    }

    /// Builds the packet for the current tick: encodes the staged options
    /// in `SendOptions`, or all unconfirmed inputs under the current
    /// sequence number in `SendInput`, with the codecs of the application,
    /// and frames what they give.
    pub fn send<I: Input>(&self, config: &Config, inputs: Vec<I>) -> (packet: Vec<u8>)
        ensures
            exists|options: Option<Seq<u8>>, records: Option<Seq<u8>>|
                packet@ == crate::clockwork::wire::header(
                    config.protocol_header@,
                    self.connection.id@,
                    self.tick.code(),
                ) + #[trigger] self.payload(options, records) && (self.options is None ==> options
                    is None),
    {
        let options = match self.tick {
            ClientTick::SendOptions => match &self.options {
                Some(options) => O::encode(options),
                None => None,
            },
            _ => None,
        };
        let records = match self.tick {
            ClientTick::SendInput => I::encode(
                &RemoteInput::new(self.connection.id(), self.sequence, inputs),
            ),
            _ => None,
        };
        let ghost encoded_options = bytes_of(options);
        let ghost encoded_records = bytes_of(records);
        let packet = self.frame(config, options, records);
        proof {
            assert(packet@ == crate::clockwork::wire::header(
                config.protocol_header@,
                self.connection.id@,
                self.tick.code(),
            ) + self.payload(encoded_options, encoded_records));
        }
        packet
    }
}

} // verus!
