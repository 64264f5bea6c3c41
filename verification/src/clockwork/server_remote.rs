//! The server's side of one connection: how a packet from the client moves
//! it on, and what the server sends back.

use vstd::prelude::*;
use vstd::slice::slice_subrange;
use crate::clockwork::client_remote::next_in_sequence;
use crate::clockwork::config::Config;
use crate::clockwork::connection::{RemoteAddr, RemoteConnection};
use crate::clockwork::ids::{ConnectionID, HostID};
use crate::clockwork::input::RemoteInput;
use crate::clockwork::options::RemoteOptions;
use crate::clockwork::tick::{ClientTick, ServerTick};
use crate::clockwork::traits::{Input, Options};
use crate::clockwork::wire::{base_packet, HEADER_LEN};

verus! {

/// The largest encoded input record that a packet can carry: its length
/// has to fit the one byte in front of it.
pub const INPUT_RECORD_MAX: usize = 255;

/// The pairs of own tick and client tick that the server has an answer to.
/// A packet with any other pair is dropped.
pub open spec fn server_accepts(own: ServerTick, client: ClientTick) -> bool {
    match (own, client) {
        (ServerTick::WaitForClients, ClientTick::WaitForServer) => true,
        (ServerTick::WaitForClients, ClientTick::SendOptions) => true,
        (ServerTick::AwaitOptions, ClientTick::SendOptions) => true,
        (ServerTick::ConfirmOptions, ClientTick::SendOptions) => true,
        (ServerTick::ConfirmOptions, ClientTick::Ready) => true,
        (ServerTick::Migrate, ClientTick::WaitForServer) => true,
        (ServerTick::Migrate, ClientTick::Ready) => true,
        (ServerTick::Initialize, ClientTick::Ready) => true,
        (ServerTick::Initialize, ClientTick::SyncConfirm) => true,
        (ServerTick::InitializeMigrate, ClientTick::WaitForServer) => true,
        (ServerTick::InitializeMigrate, ClientTick::Ready) => true,
        (ServerTick::InitializeMigrate, ClientTick::SyncConfirm) => true,
        (ServerTick::AwaitInput, ClientTick::SyncConfirm) => true,
        (ServerTick::AwaitInput, ClientTick::SendInput) => true,
        _ => false,
    }
}

/// The values that a list of references points to.
pub open spec fn pointees<T>(refs: Seq<&T>) -> Seq<T> {
    Seq::new(refs.len(), |k: int| *refs[k])
}

/// The bytes of each encoded record.
pub open spec fn byte_lists(records: Seq<Vec<u8>>) -> Seq<Seq<u8>> {
    Seq::new(records.len(), |k: int| records[k]@)
}

/// The byte that announces how many records follow.
pub open spec fn count_byte(count: nat) -> u8 {
    (count % 256) as u8
}

/// The first `upto` encoded records, one after the other.
pub open spec fn joined_bytes(records: Seq<Seq<u8>>, upto: int) -> Seq<u8>
    decreases upto,
{
    if upto <= 0 {
        Seq::empty()
    } else {
        joined_bytes(records, upto - 1) + records[upto - 1]
    }
}

/// The encoded connections of the first `upto` remotes, one after the other.
/// A connection that does not encode leaves nothing.
pub open spec fn roster_bytes(connections: Seq<RemoteConnection>, upto: int) -> Seq<u8>
    decreases upto,
{
    if upto <= 0 {
        Seq::empty()
    } else {
        roster_bytes(connections, upto - 1) + match connections[upto - 1].encoded() {
            Some(bytes) => bytes,
            None => Seq::empty(),
        }
    }
}

/// One encoded input record as it stands in a packet: its length in one
/// byte, then its bytes. A record that is longer than one byte can say
/// leaves nothing.
pub open spec fn input_record(bytes: Seq<u8>) -> Seq<u8> {
    if bytes.len() <= INPUT_RECORD_MAX {
        seq![bytes.len() as u8] + bytes
    } else {
        Seq::empty()
    }
}

/// The first `upto` encoded input records as they stand in a packet, one
/// after the other.
pub open spec fn inputs_bytes(records: Seq<Seq<u8>>, upto: int) -> Seq<u8>
    decreases upto,
{
    if upto <= 0 {
        Seq::empty()
    } else {
        inputs_bytes(records, upto - 1) + input_record(records[upto - 1])
    }
}

/// What the server has to tell all remotes in one tick. Of the options and
/// the inputs it holds how many there are, and the encoded records of those
/// that the application's codec could encode.
pub struct Broadcast {
    pub sequence: u8,
    pub ticks_per_sequence: u8,
    pub host_id: ConnectionID,
    pub connections: Seq<RemoteConnection>,
    pub declared_options: nat,
    pub options: Seq<Seq<u8>>,
    pub declared_inputs: nat,
    pub inputs: Seq<Seq<u8>>,
}

/// What follows the header in a packet that the server sends while the
/// session as a whole is in `tick`.
pub open spec fn broadcast_payload(tick: ServerTick, content: Broadcast) -> Seq<u8> {
    match tick {
        ServerTick::WaitForClients | ServerTick::Migrate => match (HostID {
            id: content.host_id.id,
        }).encoded() {
            Some(bytes) => bytes,
            None => Seq::empty(),
        },
        ServerTick::ConfirmOptions => seq![count_byte(content.declared_options)] + joined_bytes(
            content.options,
            content.options.len() as int,
        ),
        ServerTick::Initialize => seq![count_byte(content.connections.len())] + roster_bytes(
            content.connections,
            content.connections.len() as int,
        ),
        ServerTick::AwaitInput => seq![
            content.sequence,
            content.ticks_per_sequence,
            count_byte(content.declared_inputs),
        ] + inputs_bytes(content.inputs, content.inputs.len() as int),
        _ => Seq::empty(),
    }
}

/// What a packet of a client holds for the server, once its payload is
/// decoded.
pub enum ClientMessage<O, I> {
    /// Nothing that the server can read in the remote's tick.
    Bare,
    /// The options that the client proposes.
    Options(RemoteOptions<O>),
    /// The inputs of the client for one sequence.
    Input(RemoteInput<I>),
}

/// Whether the application's codec reads `outcome` from options that travel
/// as `payload`: the options where it can decode them, nothing where it
/// cannot.
pub open spec fn options_decode_to<O: Options>(payload: Seq<u8>, outcome: Option<RemoteOptions<O>>) -> bool {
    exists|bytes: &[u8]| bytes@ == payload && #[trigger] call_ensures(O::decode, (bytes,), outcome)
}

/// Whether the application's codec reads `outcome` from inputs that travel
/// as `payload`: the inputs where it can decode them, nothing where it
/// cannot.
pub open spec fn inputs_decode_to<I: Input>(payload: Seq<u8>, outcome: Option<RemoteInput<I>>) -> bool {
    exists|bytes: &[u8]| bytes@ == payload && #[trigger] call_ensures(I::decode, (bytes,), outcome)
}

/// Whether a remote in tick `own` reads the options of a packet: the server
/// waits for options, the client sends them, and the packet has a payload.
pub open spec fn holds_options(own: ServerTick, packet: Seq<u8>) -> bool {
    (own == ServerTick::AwaitOptions || own == ServerTick::ConfirmOptions) && ClientTick::of_code(
        packet[8],
    ) == ClientTick::SendOptions && packet.len() >= 10
}

/// Whether a remote in tick `own` reads the input of a packet: the server
/// waits for inputs, the client sends them, and the packet has a payload
/// behind its sequence byte.
pub open spec fn holds_input(own: ServerTick, packet: Seq<u8>) -> bool {
    own == ServerTick::AwaitInput && ClientTick::of_code(packet[8]) == ClientTick::SendInput
        && packet.len() >= 11
}

/// What a remote in tick `own` reads a packet as. Where the packet holds
/// options, they are what the application's codec decodes from all that
/// follows the header. Where it holds an input, that is what the codec
/// decodes from all that follows the sequence byte. The message is bare
/// where the codec decodes nothing, and for every other packet.
pub open spec fn reads_as<O: Options, I: Input>(own: ServerTick, packet: Seq<u8>, message: ClientMessage<O, I>) -> bool {
    if holds_options(own, packet) {
        let payload = packet.subrange(HEADER_LEN as int, packet.len() as int);
        match message {
            ClientMessage::Options(options) => options_decode_to(payload, Some(options)),
            ClientMessage::Bare => options_decode_to::<O>(payload, None),
            ClientMessage::Input(_) => false,
        }
    } else if holds_input(own, packet) {
        let payload = packet.subrange(10, packet.len() as int);
        match message {
            ClientMessage::Input(input) => inputs_decode_to(payload, Some(input)),
            ClientMessage::Bare => inputs_decode_to::<I>(payload, None),
            ClientMessage::Options(_) => false,
        }
    } else {
        message is Bare
    }
}

/// Server side remote abstraction.
pub struct ServerRemote<O, I> {
    /// Current server clock tick of this remote.
    pub tick: ServerTick,
    /// The sequence number of the input that the remote is to send next.
    pub sequence: u8,
    /// Last received input from the remote.
    pub input: Option<RemoteInput<I>>,
    /// Last received options from the remote.
    pub options: Option<RemoteOptions<O>>,
    /// Connection information of the remote.
    pub connection: RemoteConnection,
    /// Last time, in milliseconds, at which a packet was accepted.
    pub last_receive_time: u64,
    /// Whether this remote was previously disconnected and should be dropped
    /// quickly by any given server.
    pub was_disconnected: bool,
}

impl<O: Options, I: Input> ServerRemote<O, I> {
    /// A remote in the given tick, or one that waits for its client; with the
    /// given connection, or a fresh one of `id` at `address`.
    pub fn new(
        id: ConnectionID,
        address: RemoteAddr,
        connection: Option<RemoteConnection>,
        tick: Option<ServerTick>,
        was_disconnected: bool,
        now: u64,
    ) -> (r: Self)
        ensures
            r.tick == (match tick {
                Some(t) => t,
                None => ServerTick::WaitForClients,
            }),
            r.sequence == 0,
            r.input is None,
            r.options is None,
            r.connection == (match connection {
                Some(c) => c,
                None => RemoteConnection { id, address, order: 0 },
            }),
            r.last_receive_time == now,
            r.was_disconnected == was_disconnected,
    {
        Self {
            tick: match tick {
                Some(t) => t,
                None => ServerTick::WaitForClients,
            },
            sequence: 0,
            input: None,
            options: None,
            connection: match connection {
                Some(c) => c,
                None => RemoteConnection::new(id, address, 0),
            },
            last_receive_time: now,
            was_disconnected,
        }
    }

    /// The connection of the client.
    pub fn connection(&self) -> (r: &RemoteConnection)
        ensures
            *r == self.connection,
    {
        &self.connection
    }

    /// The sequence of the input that the client is to send next.
    pub fn sequence(&self) -> (r: u8)
        ensures
            r == self.sequence,
    {
        self.sequence
    }

    /// The tick of this remote.
    pub fn tick(&self) -> (r: ServerTick)
        ensures
            r == self.tick,
    {
        self.tick
    }

    /// The last input that was taken from the client.
    pub fn input(&self) -> (r: Option<&RemoteInput<I>>)
        ensures
            r is Some == self.input is Some,
            r matches Some(input) ==> self.input == Some(*input),
    {
        self.input.as_ref()
    }

    /// The options that the client has proposed last.
    pub fn options(&self) -> (r: Option<&RemoteOptions<O>>)
        ensures
            r is Some == self.options is Some,
            r matches Some(options) ==> self.options == Some(*options),
    {
        self.options.as_ref()
    }

    /// Whether more time than the timeout threshold has passed at `now`
    /// since the last accepted packet.
    pub open spec fn timed_out_at(&self, config: &Config, now: u64) -> bool {
        now > self.last_receive_time && now - self.last_receive_time
            > config.remote_timeout_threshold
    }

    /// Whether the client has timed out at `now`.
    pub fn timed_out(&self, config: &Config, now: u64) -> (r: bool)
        ensures
            r == self.timed_out_at(config, now),
    {
        now > self.last_receive_time && now - self.last_receive_time
            > config.remote_timeout_threshold
    }

    /// Whether the remote is to be dropped.
    pub fn disconnected(&self) -> (r: bool)
        ensures
            r == self.was_disconnected,
    {
        self.was_disconnected
    }

    /// Gives the client a place in the migration order.
    pub fn set_order(&mut self, order: u8)
        ensures
            *final(self) == (ServerRemote {
                connection: RemoteConnection { order, ..old(self).connection },
                ..*old(self)
            }),
    {
        self.connection.set_order(order);
    }

    /// Follows the client to a new address.
    pub fn set_address(&mut self, address: RemoteAddr)
        ensures
            *final(self) == (ServerRemote {
                connection: RemoteConnection { address, ..old(self).connection },
                ..*old(self)
            }),
    {
        self.connection.set_address(address);
    }

    /// The remote with `now` as the time of its last accepted packet.
    pub open spec fn seen_at(self, now: u64) -> ServerRemote<O, I> {
        ServerRemote { last_receive_time: now, ..self }
    }

    /// The remote after a packet of `id` that carries the client's tick
    /// `client` and holds `message`, while the session waits for the inputs
    /// of `sequence`; and whether the packet was accepted.
    ///
    /// A packet of another client, and one whose tick the server has no
    /// answer to in the remote's tick, change nothing. Every other packet is
    /// accepted and sets the time of the last accepted packet to `now`.
    /// Options are stored and then confirmed. An input is stored, and the
    /// remote moves to the next sequence, where the input's sequence is both
    /// the session's and the remote's own.
    pub open spec fn taken(self, sequence: u8, id: ConnectionID, client: ClientTick, message: ClientMessage<O, I>, now: u64) -> (ServerRemote<O, I>, bool) {
        if id != self.connection.id || !server_accepts(self.tick, client) {
            (self, false)
        } else {
            let seen = self.seen_at(now);
            (
                match (self.tick, client, message) {
                    (ServerTick::WaitForClients, ClientTick::SendOptions, _) => ServerRemote {
                        tick: ServerTick::AwaitOptions,
                        ..seen
                    },
                    (
                        ServerTick::AwaitOptions,
                        ClientTick::SendOptions,
                        ClientMessage::Options(options),
                    ) => ServerRemote {
                        tick: ServerTick::ConfirmOptions,
                        options: Some(options),
                        ..seen
                    },
                    (
                        ServerTick::ConfirmOptions,
                        ClientTick::SendOptions,
                        ClientMessage::Options(options),
                    ) => ServerRemote {
                        tick: ServerTick::ConfirmOptions,
                        options: Some(options),
                        ..seen
                    },
                    (ServerTick::ConfirmOptions, ClientTick::Ready, _) => ServerRemote {
                        sequence: 0,
                        tick: ServerTick::Initialize,
                        ..seen
                    },
                    (ServerTick::Initialize, ClientTick::Ready, _) => ServerRemote {
                        sequence: 0,
                        tick: ServerTick::Initialize,
                        ..seen
                    },
                    (ServerTick::Migrate, ClientTick::Ready, _) => ServerRemote {
                        sequence: 0,
                        tick: ServerTick::InitializeMigrate,
                        ..seen
                    },
                    (ServerTick::Initialize, ClientTick::SyncConfirm, _) => ServerRemote {
                        tick: ServerTick::AwaitInput,
                        ..seen
                    },
                    (ServerTick::InitializeMigrate, ClientTick::SyncConfirm, _) => ServerRemote {
                        tick: ServerTick::AwaitInput,
                        ..seen
                    },
                    (ServerTick::AwaitInput, ClientTick::SyncConfirm, _) => ServerRemote {
                        tick: ServerTick::AwaitInput,
                        ..seen
                    },
                    (ServerTick::AwaitInput, ClientTick::SendInput, ClientMessage::Input(input)) => if input.sequence
                        == sequence && input.sequence == self.sequence {
                        ServerRemote {
                            input: Some(input),
                            sequence: crate::clockwork::client_remote::sequence_after(self.sequence),
                            ..seen
                        }
                    } else {
                        seen
                    },
                    _ => seen,
                },
                true,
            )
        }
    }

    /// Takes what a packet of `id` with the client's tick `client` holds.
    /// Says whether the packet was accepted.
    pub fn take(&mut self, sequence: u8, id: ConnectionID, client: ClientTick, message: ClientMessage<O, I>, now: u64) -> (accepted: bool)
        ensures
            (*final(self), accepted) == old(self).taken(sequence, id, client, message, now),
    {
        if id != self.connection.id() {
            return false;
        }
        match (self.tick, client) {
            // Wait for client to send options
            (ServerTick::WaitForClients, ClientTick::WaitForServer)
            // Wait for client to confirm ready after migration
            | (ServerTick::Migrate, ClientTick::WaitForServer)
            // Wait for client to confirm migrations
            | (ServerTick::InitializeMigrate, ClientTick::WaitForServer)
            | (ServerTick::InitializeMigrate, ClientTick::Ready) => {},
            (ServerTick::WaitForClients, ClientTick::SendOptions) => {
                self.tick = ServerTick::AwaitOptions;
            },
            // Receive client options
            (ServerTick::AwaitOptions, ClientTick::SendOptions)
            | (ServerTick::ConfirmOptions, ClientTick::SendOptions) => {
                match message {
                    ClientMessage::Options(options) => {
                        self.tick = ServerTick::ConfirmOptions;
                        self.options = Some(options);
                    },
                    _ => {},
                }
            },
            // Wait for client to be ready
            (ServerTick::ConfirmOptions, ClientTick::Ready)
            | (ServerTick::Initialize, ClientTick::Ready) => {
                self.sequence = 0;
                self.tick = ServerTick::Initialize;
            },
            (ServerTick::Migrate, ClientTick::Ready) => {
                self.sequence = 0;
                self.tick = ServerTick::InitializeMigrate;
            },
            // Wait for client to confirm sync
            (ServerTick::Initialize, ClientTick::SyncConfirm)
            | (ServerTick::InitializeMigrate, ClientTick::SyncConfirm)
            | (ServerTick::AwaitInput, ClientTick::SyncConfirm) => {
                self.tick = ServerTick::AwaitInput;
            },
            // Wait for client to send inputs
            (ServerTick::AwaitInput, ClientTick::SendInput) => {
                match message {
                    ClientMessage::Input(input) => {
                        if input.sequence == sequence && input.sequence == self.sequence {
                            self.input = Some(input);
                            self.sequence = next_in_sequence(self.sequence);
                        }
                    },
                    _ => {},
                }
            },
            (_, _) => {
                return false;
            },
        }
        self.last_receive_time = now;
        true
    }

    /// Reads the payload of a packet of at least header length as a remote
    /// in tick `own` reads it: hands the payload to the codec of the
    /// application where the packet holds options or an input, and gives what
    /// the codec gives.
    pub fn open(own: ServerTick, packet: &Vec<u8>) -> (message: ClientMessage<O, I>)
        requires
            packet@.len() >= HEADER_LEN,
        ensures
            reads_as(own, packet@, message),
    {
        match (own, ClientTick::from_u8(packet[8])) {
            (ServerTick::AwaitOptions, ClientTick::SendOptions)
            | (ServerTick::ConfirmOptions, ClientTick::SendOptions) => {
                if packet.len() >= 10 {
                    let payload = slice_subrange(packet.as_slice(), HEADER_LEN, packet.len());
                    let decoded = O::decode(payload);
                    assert(options_decode_to(payload@, decoded));
                    match decoded {
                        Some(options) => ClientMessage::Options(options),
                        None => ClientMessage::Bare,
                    }
                } else {
                    ClientMessage::Bare
                }
            },
            (ServerTick::AwaitInput, ClientTick::SendInput) => {
                if packet.len() >= 11 {
                    let payload = slice_subrange(packet.as_slice(), 10, packet.len());
                    let decoded = I::decode(payload);
                    assert(inputs_decode_to(payload@, decoded));
                    match decoded {
                        Some(input) => ClientMessage::Input(input),
                        None => ClientMessage::Bare,
                    }
                } else {
                    ClientMessage::Bare
                }
            },
            (_, _) => ClientMessage::Bare,
        }
    }

    /// Takes a packet that names `id` as its sender: reads its payload with
    /// the codecs of the application and takes what it holds. Says whether
    /// the packet was accepted. A packet shorter than a header changes
    /// nothing.
    pub fn receive(&mut self, sequence: u8, id: ConnectionID, packet: Vec<u8>, now: u64) -> (accepted: bool)
        ensures
            packet@.len() < HEADER_LEN ==> !accepted && *final(self) == *old(self),
            packet@.len() >= HEADER_LEN ==> exists|message: ClientMessage<O, I>|
                reads_as(old(self).tick, packet@, message) && #[trigger] old(self).taken(
                    sequence,
                    id,
                    ClientTick::of_code(packet@[8]),
                    message,
                    now,
                ) == (*final(self), accepted),
    {
        if packet.len() < HEADER_LEN {
            return false;
        }
        let client = ClientTick::from_u8(packet[8]);
        let message = Self::open(self.tick, &packet);
        let accepted = self.take(sequence, id, client, message, now);
        proof {
            assert(old(self).taken(sequence, id, ClientTick::of_code(packet@[8]), message, now) == (
                *self,
                accepted,
            ));
        }
        accepted
    }

    /// Builds the packet for this remote while the session as a whole is in
    /// `tick`: the header carries the remote's own tick, the payload is that
    /// of the session's. Of the options and the inputs the packet declares
    /// how many there are, and holds the records that are given.
    pub fn frame(
        &self,
        config: &Config,
        tick: ServerTick,
        sequence: u8,
        ticks_per_sequence: u8,
        host_id: ConnectionID,
        connections: &[&RemoteConnection],
        declared_options: usize,
        options: &Vec<Vec<u8>>,
        declared_inputs: usize,
        inputs: &Vec<Vec<u8>>,
    ) -> (packet: Vec<u8>)
        ensures
            packet@ == crate::clockwork::wire::header(
                config.protocol_header@,
                self.connection.id@,
                self.tick.code(),
            ) + broadcast_payload(
                tick,
                Broadcast {
                    sequence,
                    ticks_per_sequence,
                    host_id,
                    connections: pointees(connections@),
                    declared_options: declared_options as nat,
                    options: byte_lists(options@),
                    declared_inputs: declared_inputs as nat,
                    inputs: byte_lists(inputs@),
                },
            ),
    {
        let mut packet = base_packet(self.connection.id(), config, self.tick.to_u8());
        let ghost head = packet@;
        match tick {
            ServerTick::WaitForClients | ServerTick::Migrate => {
                match HostID::new(host_id).encode() {
                    Some(mut bytes) => {
                        packet.append(&mut bytes);
                    },
                    None => {},
                }
            },
            ServerTick::ConfirmOptions => {
                packet.push(#[verifier::truncate] (declared_options as u8));
                assert(declared_options as u8 == count_byte(declared_options as nat)) by {
                    let n = declared_options;
                    assert(n as u8 == (n % 256) as u8) by (bit_vector);
                }
                let mut i: usize = 0;
                while i < options.len()
                    invariant
                        i <= options@.len(),
                        packet@ == head + seq![count_byte(declared_options as nat)] + joined_bytes(
                            byte_lists(options@),
                            i as int,
                        ),
                    decreases options@.len() - i,
                {
                    let mut bytes = copy_of(&options[i]);
                    packet.append(&mut bytes);
                    i += 1;
                    assert(packet@ =~= head + seq![count_byte(declared_options as nat)]
                        + joined_bytes(byte_lists(options@), i as int));
                }
            },
            ServerTick::Initialize => {
                packet.push(#[verifier::truncate] (connections.len() as u8));
                assert(connections.len() as u8 == count_byte(connections@.len())) by {
                    let n = connections.len();
                    assert(n as u8 == (n % 256) as u8) by (bit_vector);
                }
                let mut i: usize = 0;
                while i < connections.len()
                    invariant
                        i <= connections@.len(),
                        packet@ == head + seq![count_byte(connections@.len())] + roster_bytes(
                            pointees(connections@),
                            i as int,
                        ),
                    decreases connections@.len() - i,
                {
                    match connections[i].encode() {
                        Some(mut bytes) => {
                            packet.append(&mut bytes);
                        },
                        None => {},
                    }
                    i += 1;
                    assert(packet@ =~= head + seq![count_byte(connections@.len())] + roster_bytes(
                        pointees(connections@),
                        i as int,
                    ));
                }
            },
            ServerTick::AwaitInput => {
                packet.push(sequence);
                packet.push(ticks_per_sequence);
                packet.push(#[verifier::truncate] (declared_inputs as u8));
                assert(declared_inputs as u8 == count_byte(declared_inputs as nat)) by {
                    let n = declared_inputs;
                    assert(n as u8 == (n % 256) as u8) by (bit_vector);
                }
                assert(packet@ =~= head + seq![
                    sequence,
                    ticks_per_sequence,
                    count_byte(declared_inputs as nat),
                ]);
                let mut i: usize = 0;
                while i < inputs.len()
                    invariant
                        i <= inputs@.len(),
                        packet@ == head + seq![
                            sequence,
                            ticks_per_sequence,
                            count_byte(declared_inputs as nat),
                        ] + inputs_bytes(byte_lists(inputs@), i as int),
                    decreases inputs@.len() - i,
                {
                    if inputs[i].len() <= INPUT_RECORD_MAX {
                        let mut bytes = copy_of(&inputs[i]);
                        packet.push(bytes.len() as u8);
                        packet.append(&mut bytes);
                    }
                    i += 1;
                    assert(packet@ =~= head + seq![
                        sequence,
                        ticks_per_sequence,
                        count_byte(declared_inputs as nat),
                    ] + inputs_bytes(byte_lists(inputs@), i as int));
                }
            },
            _ => {},
        }
        proof {
            assert(packet@ =~= head + broadcast_payload(
                tick,
                Broadcast {
                    sequence,
                    ticks_per_sequence,
                    host_id,
                    connections: pointees(connections@),
                    declared_options: declared_options as nat,
                    options: byte_lists(options@),
                    declared_inputs: declared_inputs as nat,
                    inputs: byte_lists(inputs@),
                },
            ));
        }
        packet
    }

    /// Builds the packet for this remote while the session as a whole is in
    /// `tick`: encodes the options and the inputs with the codecs of the
    /// application, and frames the records that they give.
    pub fn send(
        &self,
        config: &Config,
        tick: ServerTick,
        sequence: u8,
        ticks_per_sequence: u8,
        host_id: ConnectionID,
        connections: &[&RemoteConnection],
        options: &[&RemoteOptions<O>],
        inputs: &[&RemoteInput<I>],
    ) -> (packet: Vec<u8>)
        ensures
            exists|encoded_options: Seq<Seq<u8>>, encoded_inputs: Seq<Seq<u8>>|
                encoded_options.len() <= options@.len() && encoded_inputs.len() <= inputs@.len()
                    && packet@ == crate::clockwork::wire::header(
                    config.protocol_header@,
                    self.connection.id@,
                    self.tick.code(),
                ) + #[trigger] broadcast_payload(
                    tick,
                    Broadcast {
                        sequence,
                        ticks_per_sequence,
                        host_id,
                        connections: pointees(connections@),
                        declared_options: options@.len(),
                        options: encoded_options,
                        declared_inputs: inputs@.len(),
                        inputs: encoded_inputs,
                    },
                ),
    {
        let encoded_options = encode_options(options);
        let encoded_inputs = encode_inputs(inputs);
        self.frame(
            config,
            tick,
            sequence,
            ticks_per_sequence,
            host_id,
            connections,
            options.len(),
            &encoded_options,
            inputs.len(),
            &encoded_inputs,
        )
    }
}

/// The records among the first `upto` outcomes of encoding, in their
/// order: an outcome without a record leaves nothing.
pub open spec fn written(outcomes: Seq<Option<Vec<u8>>>, upto: int) -> Seq<Vec<u8>>
    decreases upto,
{
    if upto <= 0 {
        Seq::empty()
    } else {
        match outcomes[upto - 1] {
            Some(bytes) => written(outcomes, upto - 1).push(bytes),
            None => written(outcomes, upto - 1),
        }
    }
}

/// Whether the application's codec gives the outcome at each place for the
/// options at that place.
pub open spec fn options_encode_to<O: Options>(options: Seq<&RemoteOptions<O>>, outcomes: Seq<Option<Vec<u8>>>) -> bool {
    outcomes.len() == options.len() && forall|k: int|
        0 <= k < options.len() ==> #[trigger] call_ensures(O::encode, (options[k],), outcomes[k])
}

/// Whether the application's codec gives the outcome at each place for the
/// inputs at that place.
pub open spec fn inputs_encode_to<I: Input>(inputs: Seq<&RemoteInput<I>>, outcomes: Seq<Option<Vec<u8>>>) -> bool {
    outcomes.len() == inputs.len() && forall|k: int|
        0 <= k < inputs.len() ==> #[trigger] call_ensures(I::encode, (inputs[k],), outcomes[k])
}

/// What is written of the first outcomes does not depend on those that
/// follow, and there is no more of it than there are outcomes.
proof fn written_so_far(shorter: Seq<Option<Vec<u8>>>, longer: Seq<Option<Vec<u8>>>, upto: int)
    requires
        0 <= upto <= shorter.len() <= longer.len(),
        forall|k: int| 0 <= k < upto ==> shorter[k] == longer[k],
    ensures
        written(shorter, upto) == written(longer, upto),
        written(shorter, upto).len() <= upto,
    decreases upto,
{
    if upto > 0 {
        written_so_far(shorter, longer, upto - 1);
    }
}

/// Encodes the options with the codec of the application, one after the
/// other. Gives the records of those that encode, in their order; those that
/// do not encode are passed over.
pub fn encode_options<O: Options>(options: &[&RemoteOptions<O>]) -> (records: Vec<Vec<u8>>)
    ensures
        records@.len() <= options@.len(),
        exists|outcomes: Seq<Option<Vec<u8>>>|
            options_encode_to(options@, outcomes) && records@ == #[trigger] written(
                outcomes,
                options@.len() as int,
            ),
{
    let mut records: Vec<Vec<u8>> = Vec::with_capacity(options.len());
    let ghost mut outcomes: Seq<Option<Vec<u8>>> = Seq::empty();
    let mut i: usize = 0;
    while i < options.len()
        invariant
            i <= options@.len(),
            outcomes.len() == i,
            forall|k: int|
                0 <= k < i ==> #[trigger] call_ensures(O::encode, (options@[k],), outcomes[k]),
            records@ == written(outcomes, i as int),
            records@.len() <= i,
        decreases options@.len() - i,
    {
        let ghost earlier = outcomes;
        let encoded = O::encode(options[i]);
        proof {
            outcomes = earlier.push(encoded);
            written_so_far(earlier, outcomes, i as int);
        }
        match encoded {
            Some(bytes) => {
                records.push(bytes);
            },
            None => {},
        }
        i += 1;
    }
    proof {
        assert(options_encode_to(options@, outcomes));
    }
    records
}

/// Encodes the inputs with the codec of the application, one after the
/// other. Gives the records of those that encode, in their order; those that
/// do not encode are passed over.
pub fn encode_inputs<I: Input>(inputs: &[&RemoteInput<I>]) -> (records: Vec<Vec<u8>>)
    ensures
        records@.len() <= inputs@.len(),
        exists|outcomes: Seq<Option<Vec<u8>>>|
            inputs_encode_to(inputs@, outcomes) && records@ == #[trigger] written(
                outcomes,
                inputs@.len() as int,
            ),
{
    let mut records: Vec<Vec<u8>> = Vec::with_capacity(inputs.len());
    let ghost mut outcomes: Seq<Option<Vec<u8>>> = Seq::empty();
    let mut i: usize = 0;
    while i < inputs.len()
        invariant
            i <= inputs@.len(),
            outcomes.len() == i,
            forall|k: int|
                0 <= k < i ==> #[trigger] call_ensures(I::encode, (inputs@[k],), outcomes[k]),
            records@ == written(outcomes, i as int),
            records@.len() <= i,
        decreases inputs@.len() - i,
    {
        let ghost earlier = outcomes;
        let encoded = I::encode(inputs[i]);
        proof {
            outcomes = earlier.push(encoded);
            written_so_far(earlier, outcomes, i as int);
        }
        match encoded {
            Some(bytes) => {
                records.push(bytes);
            },
            None => {},
        }
        i += 1;
    }
    proof {
        assert(inputs_encode_to(inputs@, outcomes));
    }
    records
}

/// A copy of the bytes.
fn copy_of(bytes: &Vec<u8>) -> (r: Vec<u8>)
    ensures
        r@ == bytes@,
{
    let mut r: Vec<u8> = Vec::with_capacity(bytes.len());
    let mut k: usize = 0;
    while k < bytes.len()
        invariant
            k <= bytes@.len(),
            r@ == bytes@.take(k as int),
        decreases bytes@.len() - k,
    {
        r.push(bytes[k]);
        assert(r@ =~= bytes@.take(k + 1));
        k += 1;
    }
    assert(bytes@.take(k as int) =~= bytes@);
    r
}

} // verus!
