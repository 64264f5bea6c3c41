//! The server: all remotes of a session, the tick that they share, and the
//! pace of the input sequences.

use vstd::prelude::*;
use crate::clockwork::client_remote::next_in_sequence;
use crate::clockwork::config::Config;
use crate::clockwork::connection::{RemoteAddr, RemoteConnection};
use crate::clockwork::ids::{ConnectionID, HostID};
use crate::clockwork::input::RemoteInput;
use crate::clockwork::options::RemoteOptions;
use crate::clockwork::server_remote::{encode_inputs, encode_options, Broadcast, ClientMessage, ServerRemote};
use crate::clockwork::tick::{ClientTick, ServerTick};
use crate::clockwork::traits::{Input, Options};
use crate::clockwork::wire::connection_id_from_packet;

verus! {

/// The most simulation ticks that one input sequence adds to make up for
/// lost time.
pub const CATCH_UP_MAX: u32 = 16;

/// The migration order of the connection that hosts the server: it goes
/// last.
pub const HOST_ORDER: u8 = 255;

/// Implementation of a lock step protocol server.
pub struct ClockworkServer<O, I> {
    /// Whether the server has already started.
    pub started: bool,
    /// The input sequence that the session has completed last.
    pub sequence: u8,
    /// Currently connected clients on this server, by ascending identifier.
    pub remotes: Vec<ServerRemote<O, I>>,
    /// The ConnectionID of the local client which started the server.
    pub host_id: ConnectionID,
    /// Time, in milliseconds, at which the sequence advanced last.
    pub last_tick_time: u64,
    /// Milliseconds that the session is behind its tick rate.
    pub tick_buffer: u32,
    /// Simulation ticks that the clients run for the current sequence.
    pub ticks_per_sequence: u8,
}

/// A server with its remotes as a sequence.
pub struct ServerModel<O, I> {
    pub started: bool,
    pub sequence: u8,
    pub remotes: Seq<ServerRemote<O, I>>,
    pub host_id: ConnectionID,
    pub last_tick_time: u64,
    pub tick_buffer: u32,
    pub ticks_per_sequence: u8,
}

impl<O, I> View for ClockworkServer<O, I> {
    type V = ServerModel<O, I>;

    open spec fn view(&self) -> ServerModel<O, I> {
        ServerModel {
            started: self.started,
            sequence: self.sequence,
            remotes: self.remotes@,
            host_id: self.host_id,
            last_tick_time: self.last_tick_time,
            tick_buffer: self.tick_buffer,
            ticks_per_sequence: self.ticks_per_sequence,
        }
    }
}

/// A packet with the address it came from or goes to.
pub type Datagram = (RemoteAddr, Vec<u8>);

/// Datagrams with their bytes as sequences.
pub open spec fn datagrams(packets: Seq<Datagram>) -> Seq<(RemoteAddr, Seq<u8>)> {
    Seq::new(packets.len(), |k: int| (packets[k].0, packets[k].1@))
}

/// The remotes stand by ascending identifier, so none occurs twice.
pub open spec fn ascending<O, I>(remotes: Seq<ServerRemote<O, I>>) -> bool {
    forall|i: int, j: int|
        0 <= i < j < remotes.len() ==> remotes[i].connection.id@ < remotes[j].connection.id@
}

/// The place of `id` among the remotes: the number of remotes in front with
/// a lower identifier.
pub open spec fn slot<O, I>(remotes: Seq<ServerRemote<O, I>>, id: u32) -> int
    decreases remotes.len(),
{
    if remotes.len() == 0 || remotes[0].connection.id@ >= id {
        0
    } else {
        1 + slot(remotes.skip(1), id)
    }
}

/// Whether a remote with this identifier is connected.
pub open spec fn connected<O, I>(remotes: Seq<ServerRemote<O, I>>, id: u32) -> bool {
    slot(remotes, id) < remotes.len() && remotes[slot(remotes, id)].connection.id@ == id
}

/// A known remote after a packet from `addr` that holds `message`. Where
/// the packet is accepted and came from another address than the one on
/// record, the remote's address follows it.
pub open spec fn routed<O: Options, I: Input>(
    remote: ServerRemote<O, I>,
    sequence: u8,
    id: ConnectionID,
    addr: RemoteAddr,
    client: ClientTick,
    message: ClientMessage<O, I>,
    now: u64,
) -> ServerRemote<O, I> {
    let (after, accepted) = remote.taken(sequence, id, client, message, now);
    if accepted && addr != after.connection.address {
        ServerRemote { connection: RemoteConnection { address: addr, ..after.connection }, ..after }
    } else {
        after
    }
}

/// A remote as the server first sees it.
pub open spec fn fresh<O, I>(id: ConnectionID, address: RemoteAddr, now: u64) -> ServerRemote<O, I> {
    ServerRemote {
        tick: ServerTick::WaitForClients,
        sequence: 0,
        input: None,
        options: None,
        connection: RemoteConnection { id, address, order: 0 },
        last_receive_time: now,
        was_disconnected: false,
    }
}

/// The tick in which the server reads a packet of `id`: that of the remote
/// with this identifier, and that of a fresh remote where there is none.
pub open spec fn tick_of<O, I>(remotes: Seq<ServerRemote<O, I>>, id: u32) -> ServerTick {
    if connected(remotes, id) {
        remotes[slot(remotes, id)].tick
    } else {
        ServerTick::WaitForClients
    }
}

/// The remotes after what a packet of `id` from `addr` holds, and whether
/// the packet brought a new remote.
///
/// A packet of a known remote goes to that remote. One of an unknown sender
/// is admitted where the session has not started, there is room left, and a
/// fresh remote accepts it.
pub open spec fn admitted<O: Options, I: Input>(
    remotes: Seq<ServerRemote<O, I>>,
    started: bool,
    sequence: u8,
    config: Config,
    addr: RemoteAddr,
    id: ConnectionID,
    client: ClientTick,
    message: ClientMessage<O, I>,
    now: u64,
) -> (Seq<ServerRemote<O, I>>, bool) {
    let k = slot(remotes, id@);
    if connected(remotes, id@) {
        (remotes.update(k, routed(remotes[k], sequence, id, addr, client, message, now)), false)
    } else if !started && remotes.len() < config.server_max_clients {
        let (joined, accepted) = fresh::<O, I>(id, addr, now).taken(
            sequence,
            id,
            client,
            message,
            now,
        );
        if accepted {
            (remotes.insert(k, joined), true)
        } else {
            (remotes, false)
        }
    } else {
        (remotes, false)
    }
}

/// The remotes after one packet that holds `message`, and whether the packet
/// brought a new remote. A packet without a sender is dropped.
pub open spec fn absorbed_one<O: Options, I: Input>(
    remotes: Seq<ServerRemote<O, I>>,
    started: bool,
    sequence: u8,
    config: Config,
    addr: RemoteAddr,
    packet: Seq<u8>,
    message: ClientMessage<O, I>,
    now: u64,
) -> (Seq<ServerRemote<O, I>>, bool) {
    match crate::clockwork::wire::packet_sender(config.protocol_header@, packet) {
        None => (remotes, false),
        Some(id) => admitted(
            remotes,
            started,
            sequence,
            config,
            addr,
            id,
            ClientTick::of_code(packet[8]),
            message,
            now,
        ),
    }
}

/// The remotes after the first `upto` packets of the inbox, the packet at
/// each index holding the message at that index, and whether any of them
/// brought a new remote.
pub open spec fn absorbed<O: Options, I: Input>(
    remotes: Seq<ServerRemote<O, I>>,
    started: bool,
    sequence: u8,
    config: Config,
    inbox: Seq<Datagram>,
    messages: Seq<ClientMessage<O, I>>,
    upto: int,
    now: u64,
) -> (Seq<ServerRemote<O, I>>, bool)
    decreases upto,
{
    if upto <= 0 {
        (remotes, false)
    } else {
        let (before, joined) = absorbed(
            remotes,
            started,
            sequence,
            config,
            inbox,
            messages,
            upto - 1,
            now,
        );
        let (after, joins) = absorbed_one(
            before,
            started,
            sequence,
            config,
            inbox[upto - 1].0,
            inbox[upto - 1].1@,
            messages[upto - 1],
            now,
        );
        (after, joined || joins)
    }
}

/// Whether each packet of the inbox that names a sender can be read as the
/// message at its index, by the remotes as they are when its turn comes.
pub open spec fn read_in_turn<O: Options, I: Input>(
    remotes: Seq<ServerRemote<O, I>>,
    started: bool,
    sequence: u8,
    config: Config,
    inbox: Seq<Datagram>,
    messages: Seq<ClientMessage<O, I>>,
    upto: int,
    now: u64,
) -> bool
    decreases upto,
{
    if upto <= 0 {
        true
    } else {
        let before = absorbed(remotes, started, sequence, config, inbox, messages, upto - 1, now).0;
        read_in_turn(remotes, started, sequence, config, inbox, messages, upto - 1, now)
            && match crate::clockwork::wire::packet_sender(
            config.protocol_header@,
            inbox[upto - 1].1@,
        ) {
            None => true,
            Some(id) => crate::clockwork::server_remote::reads_as(
                tick_of(before, id@),
                inbox[upto - 1].1@,
                messages[upto - 1],
            ),
        }
    }
}

/// A remote that a new host takes over from the session before it. It waits
/// for the client to find the new host; the host of old is marked as
/// disconnected, to be dropped at once.
pub open spec fn migrated_remote<O, I>(
    id: ConnectionID,
    connection: RemoteConnection,
    previous_host_id: HostID,
    now: u64,
) -> ServerRemote<O, I> {
    ServerRemote {
        tick: ServerTick::Migrate,
        sequence: 0,
        input: None,
        options: None,
        connection: RemoteConnection { id, ..connection },
        last_receive_time: now,
        was_disconnected: id@ == previous_host_id@,
    }
}

/// The remotes after the first `upto` connections of an earlier session
/// were taken over. A connection that is listed again replaces the one
/// before.
pub open spec fn migrated<O, I>(
    remotes: Seq<ServerRemote<O, I>>,
    previous_host_id: HostID,
    connections: Seq<(ConnectionID, RemoteConnection)>,
    upto: int,
    now: u64,
) -> Seq<ServerRemote<O, I>>
    decreases upto,
{
    if upto <= 0 {
        remotes
    } else {
        let before = migrated(remotes, previous_host_id, connections, upto - 1, now);
        let (id, connection) = connections[upto - 1];
        let remote = migrated_remote::<O, I>(id, connection, previous_host_id, now);
        if connected(before, id@) {
            before.update(slot(before, id@), remote)
        } else {
            before.insert(slot(before, id@), remote)
        }
    }
}

/// Whether a remote stays: it has not timed out and was not marked as
/// disconnected.
pub open spec fn alive<O: Options, I: Input>(remote: ServerRemote<O, I>, config: Config, now: u64) -> bool {
    !remote.timed_out_at(&config, now) && !remote.was_disconnected
}

/// The remotes that stay, in their order.
pub open spec fn kept<O: Options, I: Input>(remotes: Seq<ServerRemote<O, I>>, config: Config, now: u64) -> Seq<ServerRemote<O, I>>
    decreases remotes.len(),
{
    if remotes.len() == 0 {
        Seq::empty()
    } else if alive(remotes[0], config, now) {
        seq![remotes[0]] + kept(remotes.skip(1), config, now)
    } else {
        kept(remotes.skip(1), config, now)
    }
}

/// The migration order of the remote at `index`: its index, but for the
/// hosting connection, which goes last.
pub open spec fn order_at(id: ConnectionID, host_id: ConnectionID, index: int) -> u8 {
    if id == host_id {
        HOST_ORDER
    } else {
        (index % 256) as u8
    }
}

/// The remotes with their migration order set anew.
pub open spec fn reordered<O, I>(remotes: Seq<ServerRemote<O, I>>, host_id: ConnectionID) -> Seq<ServerRemote<O, I>> {
    Seq::new(
        remotes.len(),
        |k: int|
            ServerRemote {
                connection: RemoteConnection {
                    order: order_at(remotes[k].connection.id, host_id, k),
                    ..remotes[k].connection
                },
                ..remotes[k]
            },
    )
}

/// Whether every remote has sent the input of the sequence before
/// `sequence`, and so waits for `sequence`.
pub open spec fn all_wait_for<O, I>(remotes: Seq<ServerRemote<O, I>>, sequence: u8) -> bool {
    forall|k: int| 0 <= k < remotes.len() ==> remotes[k].sequence == sequence
}

/// The lowest tick among the first `upto` remotes.
pub open spec fn lowest_tick<O, I>(remotes: Seq<ServerRemote<O, I>>, upto: int) -> Option<ServerTick>
    decreases upto,
{
    if upto <= 0 {
        None
    } else {
        match lowest_tick(remotes, upto - 1) {
            None => Some(remotes[upto - 1].tick),
            Some(lowest) => if remotes[upto - 1].tick.rank() < lowest.rank() {
                Some(remotes[upto - 1].tick)
            } else {
                Some(lowest)
            },
        }
    }
}

/// The connections of all remotes, in their order.
pub open spec fn roster_of<O, I>(remotes: Seq<ServerRemote<O, I>>) -> Seq<RemoteConnection> {
    Seq::new(remotes.len(), |k: int| remotes[k].connection)
}

/// The options of the first `upto` remotes that have sent any, in their
/// order.
pub open spec fn options_of<O, I>(remotes: Seq<ServerRemote<O, I>>, upto: int) -> Seq<RemoteOptions<O>>
    decreases upto,
{
    if upto <= 0 {
        Seq::empty()
    } else {
        match remotes[upto - 1].options {
            Some(options) => options_of(remotes, upto - 1).push(options),
            None => options_of(remotes, upto - 1),
        }
    }
}

/// The last inputs of the first `upto` remotes that have sent any, in their
/// order.
pub open spec fn inputs_of<O, I>(remotes: Seq<ServerRemote<O, I>>, upto: int) -> Seq<RemoteInput<I>>
    decreases upto,
{
    if upto <= 0 {
        Seq::empty()
    } else {
        match remotes[upto - 1].input {
            Some(input) => inputs_of(remotes, upto - 1).push(input),
            None => inputs_of(remotes, upto - 1),
        }
    }
}

impl<O: Options, I: Input> ServerModel<O, I> {
    /// The server after the packets of the inbox: the packets are taken in,
    /// remotes that are lost are dropped, and where a remote joined, the
    /// migration order is set anew.
    pub open spec fn gathered(self, config: Config, inbox: Seq<Datagram>, messages: Seq<ClientMessage<O, I>>, now: u64) -> ServerModel<O, I> {
        let (taken, joined) = absorbed(
            self.remotes,
            self.started,
            self.sequence,
            config,
            inbox,
            messages,
            inbox.len() as int,
            now,
        );
        let left = kept(taken, config, now);
        ServerModel {
            remotes: if joined {
                reordered(left, self.host_id)
            } else {
                left
            },
            ..self
        }
    }

    /// The server after the packets of the inbox were taken in.
    pub open spec fn after_inbox(self, config: Config, inbox: Seq<Datagram>, messages: Seq<ClientMessage<O, I>>, now: u64) -> ServerModel<O, I> {
        ServerModel {
            remotes: absorbed(
                self.remotes,
                self.started,
                self.sequence,
                config,
                inbox,
                messages,
                inbox.len() as int,
                now,
            ).0,
            ..self
        }
    }

    /// Milliseconds between two packets at the high tick rate.
    pub open spec fn interval(config: Config) -> int {
        1000int / (config.high_tick_rate as int)
    }

    /// Milliseconds that the session is behind when the sequence advances at
    /// `now`: what it was behind before, and what this sequence took longer
    /// than one interval. Both the time taken and the sum stop at the
    /// largest value of 32 bits.
    pub open spec fn backlog(self, config: Config, now: u64) -> int {
        let elapsed = if now > self.last_tick_time {
            now - self.last_tick_time
        } else {
            0
        };
        let taken = if elapsed > u32::MAX {
            u32::MAX as int
        } else {
            elapsed
        };
        let late = if taken > Self::interval(config) {
            taken - Self::interval(config)
        } else {
            0
        };
        if self.tick_buffer + late > u32::MAX {
            u32::MAX as int
        } else {
            self.tick_buffer + late
        }
    }

    /// Simulation ticks that the next sequence adds to catch up: one for
    /// each whole interval of the backlog, and no more than `CATCH_UP_MAX`.
    pub open spec fn catch_up(self, config: Config, now: u64) -> int {
        let whole = self.backlog(config, now) / Self::interval(config);
        if whole > CATCH_UP_MAX {
            CATCH_UP_MAX as int
        } else {
            whole
        }
    }

    /// Whether the sequence advances: the session has started, and every
    /// remote, of which there is at least one, has sent its input for the
    /// sequence that is due.
    pub open spec fn advances(self) -> bool {
        self.started && self.remotes.len() > 0 && all_wait_for(
            self.remotes,
            crate::clockwork::client_remote::sequence_after(self.sequence),
        )
    }

    /// The server after pacing at `now`: where the sequence advances, the
    /// clients get one simulation tick and those that catch up with the
    /// backlog.
    pub open spec fn paced(self, config: Config, now: u64) -> ServerModel<O, I> {
        if self.advances() {
            ServerModel {
                sequence: crate::clockwork::client_remote::sequence_after(self.sequence),
                last_tick_time: now,
                tick_buffer: (self.backlog(config, now) - self.catch_up(config, now)
                    * Self::interval(config)) as u32,
                ticks_per_sequence: (1 + self.catch_up(config, now)) as u8,
                ..self
            }
        } else {
            self
        }
    }

    /// The tick of the session as a whole: the lowest among its remotes.
    pub open spec fn shared_tick(self) -> Option<ServerTick> {
        lowest_tick(self.remotes, self.remotes.len() as int)
    }

    /// The server after it has looked at the shared tick at `now`: the
    /// session starts when all remotes have reached `Initialize` for the
    /// first time.
    pub open spec fn opened(self, now: u64) -> ServerModel<O, I> {
        if !self.started && self.shared_tick() == Some(ServerTick::Initialize) {
            ServerModel { started: true, last_tick_time: now, ..self }
        } else {
            self
        }
    }

    /// The server after one tick at `now` with the packets of the inbox,
    /// the packet at each index holding the message at that index.
    pub open spec fn ticked(self, config: Config, inbox: Seq<Datagram>, messages: Seq<ClientMessage<O, I>>, now: u64) -> ServerModel<O, I> {
        self.gathered(config, inbox, messages, now).paced(config, now).opened(now)
    }

    /// Whether every packet of the inbox can be read as the message at its
    /// index when its turn comes.
    pub open spec fn reads(self, config: Config, inbox: Seq<Datagram>, messages: Seq<ClientMessage<O, I>>, now: u64) -> bool {
        messages.len() == inbox.len() && read_in_turn(
            self.remotes,
            self.started,
            self.sequence,
            config,
            inbox,
            messages,
            inbox.len() as int,
            now,
        )
    }

    /// What the server has to tell its remotes, with the encoded records of
    /// the options and the inputs as given.
    pub open spec fn content(self, options: Seq<Seq<u8>>, inputs: Seq<Seq<u8>>) -> Broadcast {
        Broadcast {
            sequence: self.sequence,
            ticks_per_sequence: self.ticks_per_sequence,
            host_id: self.host_id,
            connections: roster_of(self.remotes),
            declared_options: options_of(self.remotes, self.remotes.len() as int).len(),
            options,
            declared_inputs: inputs_of(self.remotes, self.remotes.len() as int).len(),
            inputs,
        }
    }

    /// The packet for the remote at `index`: its own header, and the payload
    /// of the shared tick.
    pub open spec fn packet_for(self, config: Config, tick: ServerTick, content: Broadcast, index: int) -> (RemoteAddr, Seq<u8>) {
        (
            self.remotes[index].connection.address,
            crate::clockwork::wire::header(
                config.protocol_header@,
                self.remotes[index].connection.id@,
                self.remotes[index].tick.code(),
            ) + crate::clockwork::server_remote::broadcast_payload(tick, content),
        )
    }

    /// The packets that the server sends: one for each remote, in the order
    /// of the remotes, and none where there is no remote.
    pub open spec fn outbox(self, config: Config, content: Broadcast) -> Seq<(RemoteAddr, Seq<u8>)> {
        match self.shared_tick() {
            Some(tick) => Seq::new(
                self.remotes.len(),
                |k: int| self.packet_for(config, tick, content, k),
            ),
            None => Seq::empty(),
        }
    }

    /// Packets per second until the next tick: the high rate from
    /// `Initialize` on, the low rate before.
    pub open spec fn rate(self, config: Config) -> u64 {
        match self.shared_tick() {
            Some(tick) => if tick.rank() >= ServerTick::Initialize.rank() {
                config.high_tick_rate
            } else {
                config.low_tick_rate
            },
            None => config.low_tick_rate,
        }
    }
}

/// What the first packets of an inbox do depends on their messages alone.
proof fn same_prefix<O: Options, I: Input>(
    remotes: Seq<ServerRemote<O, I>>,
    started: bool,
    sequence: u8,
    config: Config,
    inbox: Seq<Datagram>,
    shorter: Seq<ClientMessage<O, I>>,
    longer: Seq<ClientMessage<O, I>>,
    upto: int,
    now: u64,
)
    requires
        0 <= upto <= shorter.len() <= longer.len(),
        forall|k: int| 0 <= k < upto ==> shorter[k] == longer[k],
    ensures
        absorbed(remotes, started, sequence, config, inbox, shorter, upto, now) == absorbed(
            remotes,
            started,
            sequence,
            config,
            inbox,
            longer,
            upto,
            now,
        ),
        read_in_turn(remotes, started, sequence, config, inbox, shorter, upto, now) == read_in_turn(
            remotes,
            started,
            sequence,
            config,
            inbox,
            longer,
            upto,
            now,
        ),
    decreases upto,
{
    if upto > 0 {
        same_prefix(remotes, started, sequence, config, inbox, shorter, longer, upto - 1, now);
    }
}

/// The place of an identifier is where the lower identifiers end.
proof fn slot_found<O, I>(remotes: Seq<ServerRemote<O, I>>, id: u32, k: int)
    requires
        0 <= k <= remotes.len(),
        forall|j: int| 0 <= j < k ==> remotes[j].connection.id@ < id,
        k == remotes.len() || remotes[k].connection.id@ >= id,
    ensures
        slot(remotes, id) == k,
    decreases k,
{
    if k > 0 {
        let rest = remotes.skip(1);
        assert forall|j: int| 0 <= j < k - 1 implies rest[j].connection.id@ < id by {
            assert(rest[j] == remotes[j + 1]);
        }
        slot_found(rest, id, k - 1);
    }
}

/// Remotes stay in ascending order when one of them leaves.
proof fn ascending_without<O, I>(remotes: Seq<ServerRemote<O, I>>, k: int)
    requires
        ascending(remotes),
        0 <= k < remotes.len(),
    ensures
        ascending(remotes.remove(k)),
{
    let left = remotes.remove(k);
    assert forall|i: int, j: int| 0 <= i < j < left.len() implies left[i].connection.id@
        < left[j].connection.id@ by {
        let a = if i < k { i } else { i + 1 };
        let b = if j < k { j } else { j + 1 };
        assert(left[i] == remotes[a]);
        assert(left[j] == remotes[b]);
    }
}

/// Remotes stay in ascending order when a new one takes its place.
proof fn ascending_with<O, I>(remotes: Seq<ServerRemote<O, I>>, remote: ServerRemote<O, I>)
    requires
        ascending(remotes),
        !connected(remotes, remote.connection.id@),
    ensures
        ascending(remotes.insert(slot(remotes, remote.connection.id@), remote)),
{
    let id = remote.connection.id@;
    let k = slot(remotes, id);
    slot_bounds(remotes, id);
    let grown = remotes.insert(k, remote);
    assert forall|i: int, j: int| 0 <= i < j < grown.len() implies grown[i].connection.id@
        < grown[j].connection.id@ by {
        let a = if i < k { i } else { i - 1 };
        let b = if j < k { j } else { j - 1 };
        if i != k {
            assert(grown[i] == remotes[a]);
        }
        if j != k {
            assert(grown[j] == remotes[b]);
        }
    }
}

/// In front of the place of an identifier stand the lower identifiers, and
/// at it none that is lower.
proof fn slot_bounds<O, I>(remotes: Seq<ServerRemote<O, I>>, id: u32)
    ensures
        0 <= slot(remotes, id) <= remotes.len(),
        forall|j: int| 0 <= j < slot(remotes, id) ==> remotes[j].connection.id@ < id,
        slot(remotes, id) < remotes.len() ==> remotes[slot(remotes, id)].connection.id@ >= id,
    decreases remotes.len(),
{
    if remotes.len() == 0 || remotes[0].connection.id@ >= id {
    } else {
        let rest = remotes.skip(1);
        slot_bounds(rest, id);
        assert forall|j: int| 0 <= j < slot(remotes, id) implies remotes[j].connection.id@
            < id by {
            if j > 0 {
                assert(rest[j - 1] == remotes[j]);
            }
        }
        if slot(remotes, id) < remotes.len() {
            assert(rest[slot(rest, id)] == remotes[slot(remotes, id)]);
        }
    }
}

impl<O: Options, I: Input> ClockworkServer<O, I> {
    /// The remotes stand by ascending identifier.
    pub open spec fn wf(&self) -> bool {
        ascending(self.remotes@)
    }

    /// A server without remotes that `host_id` runs.
    pub fn new(config: &Config, host_id: ConnectionID, was_started: bool, now: u64) -> (r: Self)
        ensures
            r.wf(),
            r@ == (ServerModel::<O, I> {
                started: was_started,
                sequence: 0,
                remotes: Seq::empty(),
                host_id,
                last_tick_time: now,
                tick_buffer: 0,
                ticks_per_sequence: 1,
            }),
    {
        Self {
            started: was_started,
            sequence: 0,
            remotes: Vec::new(),
            host_id,
            last_tick_time: now,
            tick_buffer: 0,
            ticks_per_sequence: 1,
        }
    }

    /// Seeds the server with the connections of the session that it takes
    /// over from the host `previous_host_id`.
    pub fn with_migrated_states(
        self,
        previous_host_id: HostID,
        connections: Vec<(ConnectionID, RemoteConnection)>,
        now: u64,
    ) -> (r: Self)
        requires
            self.wf(),
        ensures
            r.wf(),
            r@ == (ServerModel {
                remotes: migrated(
                    self.remotes@,
                    previous_host_id,
                    connections@,
                    connections@.len() as int,
                    now,
                ),
                ..self@
            }),
    {
        let ghost start = self@;
        let mut server = self;
        let mut i: usize = 0;
        while i < connections.len()
            invariant
                i <= connections@.len(),
                server.wf(),
                server@ == (ServerModel {
                    remotes: migrated(start.remotes, previous_host_id, connections@, i as int, now),
                    ..start
                }),
            decreases connections@.len() - i,
        {
            let (id, connection) = connections[i];
            let k = server.locate(id);
            let remote = ServerRemote::new(
                id,
                connection.address(),
                Some(RemoteConnection::new(id, connection.address(), connection.order())),
                Some(ServerTick::Migrate),
                previous_host_id.is_connection(&id),
                now,
            );
            let ghost before = server.remotes@;
            if k < server.remotes.len() && server.remotes[k].connection.id.raw() == id.raw() {
                server.remotes[k] = remote;
                proof {
                    let after = server.remotes@;
                    assert forall|a: int, b: int| 0 <= a < b < after.len() implies after[a].connection.id@
                        < after[b].connection.id@ by {
                        assert(after[a].connection.id == before[a].connection.id);
                        assert(after[b].connection.id == before[b].connection.id);
                    }
                }
            } else {
                proof {
                    ascending_with(before, remote);
                }
                server.remotes.insert(k, remote);
            }
            i += 1;
        }
        server
    }

    /// The place of `id` among the remotes.
    fn locate(&self, id: ConnectionID) -> (k: usize)
        ensures
            k == slot(self.remotes@, id@),
            k <= self.remotes@.len(),
    {
        let mut k: usize = 0;
        while k < self.remotes.len() && self.remotes[k].connection.id.raw() < id.raw()
            invariant
                k <= self.remotes@.len(),
                forall|j: int| 0 <= j < k ==> self.remotes@[j].connection.id@ < id@,
            decreases self.remotes@.len() - k,
        {
            k += 1;
        }
        proof {
            slot_found(self.remotes@, id@, k as int);
        }
        k
    }

    /// Takes what a packet of `id` from `addr` holds. Says whether the
    /// packet brought a new remote.
    pub fn route(&mut self, config: &Config, addr: RemoteAddr, id: ConnectionID, client: ClientTick, message: ClientMessage<O, I>, now: u64) -> (joined: bool)
        requires
            old(self).wf(),
        ensures
            final(self).wf(),
            (final(self).remotes@, joined) == admitted(
                old(self).remotes@,
                old(self).started,
                old(self).sequence,
                *config,
                addr,
                id,
                client,
                message,
                now,
            ),
            final(self)@ == (ServerModel { remotes: final(self).remotes@, ..old(self)@ }),
    {
        let k = self.locate(id);
        let sequence = self.sequence;
        if k < self.remotes.len() && self.remotes[k].connection.id.raw() == id.raw() {
            // Check if the packet was actually consumed by the connection.
            //
            // If it was, see if the address we received the packet from
            // differs from the last known address of the connection.
            //
            // If it does, we re-map the remotes address to the new one,
            // effectively tracking the clients sending / receiving port.
            let ghost before = self.remotes@;
            let accepted = self.remotes[k].take(sequence, id, client, message, now);
            if accepted && !addr.same(&self.remotes[k].connection.address) {
                self.remotes[k].set_address(addr);
            }
            proof {
                let after = self.remotes@;
                assert(after =~= before.update(
                    k as int,
                    routed(before[k as int], sequence, id, addr, client, message, now),
                ));
                assert forall|i: int, j: int| 0 <= i < j < after.len() implies after[i].connection.id@
                    < after[j].connection.id@ by {
                    assert(after[i].connection.id == before[i].connection.id);
                    assert(after[j].connection.id == before[j].connection.id);
                }
            }
            false
        } else if !self.started && self.remotes.len() < config.server_max_clients as usize {
            // Only allow new clients to connect if the game has not been started yet
            let mut remote = ServerRemote::new(id, addr, None, None, false, now);
            if remote.take(sequence, id, client, message, now) {
                proof {
                    ascending_with(self.remotes@, remote);
                }
                self.remotes.insert(k, remote);
                true
            } else {
                false
            }
        } else {
            false
        }
    }

    /// The tick in which the server reads a packet of `id`.
    fn reading_tick(&self, id: ConnectionID) -> (tick: ServerTick)
        ensures
            tick == tick_of(self.remotes@, id@),
    {
        let k = self.locate(id);
        if k < self.remotes.len() && self.remotes[k].connection.id.raw() == id.raw() {
            self.remotes[k].tick()
        } else {
            ServerTick::WaitForClients
        }
    }

    /// Takes in one packet that came from `addr`. Says whether it brought a
    /// new remote, and what the packet was read as.
    fn absorb_one(&mut self, config: &Config, addr: RemoteAddr, packet: Vec<u8>, now: u64) -> (r: (bool, Ghost<ClientMessage<O, I>>))
        requires
            old(self).wf(),
        ensures
            final(self).wf(),
            (final(self).remotes@, r.0) == absorbed_one(
                old(self).remotes@,
                old(self).started,
                old(self).sequence,
                *config,
                addr,
                packet@,
                r.1@,
                now,
            ),
            crate::clockwork::wire::packet_sender(config.protocol_header@, packet@) matches Some(id)
                ==> crate::clockwork::server_remote::reads_as(
                tick_of(old(self).remotes@, id@),
                packet@,
                r.1@,
            ),
            final(self)@ == (ServerModel { remotes: final(self).remotes@, ..old(self)@ }),
    {
        match connection_id_from_packet(config, packet.as_slice()) {
            Some(id) => {
                let client = ClientTick::from_u8(packet[8]);
                let message = ServerRemote::<O, I>::open(self.reading_tick(id), &packet);
                let ghost read = message;
                let joined = self.route(config, addr, id, client, message, now);
                (joined, Ghost(read))
            },
            None => (false, Ghost(ClientMessage::Bare)),
        }
    }

    /// Takes in the packets of the inbox in their order. Says whether any of
    /// them brought a new remote, and what the packets were read as.
    fn absorb(&mut self, config: &Config, inbox: Vec<Datagram>, now: u64) -> (r: (bool, Ghost<Seq<ClientMessage<O, I>>>))
        requires
            old(self).wf(),
        ensures
            final(self).wf(),
            old(self)@.reads(*config, inbox@, r.1@, now),
            (final(self).remotes@, r.0) == absorbed(
                old(self).remotes@,
                old(self).started,
                old(self).sequence,
                *config,
                inbox@,
                r.1@,
                inbox@.len() as int,
                now,
            ),
            final(self)@ == (ServerModel { remotes: final(self).remotes@, ..old(self)@ }),
    {
        let mut joined = false;
        let ghost all = inbox@;
        let ghost mut messages: Seq<ClientMessage<O, I>> = Seq::empty();
        for datagram in it: inbox
            invariant
                it.seq() == all,
                self.wf(),
                messages.len() == it.index(),
                read_in_turn(
                    old(self).remotes@,
                    old(self).started,
                    old(self).sequence,
                    *config,
                    all,
                    messages,
                    it.index() as int,
                    now,
                ),
                (self.remotes@, joined) == absorbed(
                    old(self).remotes@,
                    old(self).started,
                    old(self).sequence,
                    *config,
                    all,
                    messages,
                    it.index() as int,
                    now,
                ),
                self@ == (ServerModel { remotes: self.remotes@, ..old(self)@ }),
        {
            let (addr, packet) = datagram;
            let ghost earlier = messages;
            let (joins, read) = self.absorb_one(config, addr, packet, now);
            proof {
                messages = earlier.push(read@);
                same_prefix(
                    old(self).remotes@,
                    old(self).started,
                    old(self).sequence,
                    *config,
                    all,
                    earlier,
                    messages,
                    it.index() as int,
                    now,
                );
            }
            if joins {
                joined = true;
            }
        }
        (joined, Ghost(messages))
    }

    /// Drops the remotes that have timed out or were marked as disconnected.
    fn drop_lost(&mut self, config: &Config, now: u64)
        requires
            old(self).wf(),
        ensures
            final(self).wf(),
            final(self).remotes@ == kept(old(self).remotes@, *config, now),
            final(self)@ == (ServerModel { remotes: final(self).remotes@, ..old(self)@ }),
    {
        let mut i: usize = 0;
        proof {
            assert(self.remotes@.skip(0) =~= self.remotes@);
            assert(self.remotes@.take(0) + kept(self.remotes@, *config, now) =~= kept(
                self.remotes@,
                *config,
                now,
            ));
        }
        while i < self.remotes.len()
            invariant
                i <= self.remotes@.len(),
                self.wf(),
                kept(old(self).remotes@, *config, now) == self.remotes@.take(i as int) + kept(
                    self.remotes@.skip(i as int),
                    *config,
                    now,
                ),
                self@ == (ServerModel { remotes: self.remotes@, ..old(self)@ }),
            decreases self.remotes@.len() - i,
        {
            let ghost before = self.remotes@;
            assert(before.skip(i as int).skip(1) =~= before.skip(i + 1));
            assert(before.skip(i as int)[0] == before[i as int]);
            if self.remotes[i].timed_out(config, now) || self.remotes[i].disconnected() {
                proof {
                    ascending_without(before, i as int);
                }
                let _ = self.remotes.remove(i);
                assert(self.remotes@.take(i as int) =~= before.take(i as int));
                assert(self.remotes@.skip(i as int) =~= before.skip(i + 1));
            } else {
                assert(before.take(i + 1) =~= before.take(i as int).push(before[i as int]));
                assert(before.take(i as int) + (seq![before[i as int]] + kept(
                    before.skip(i + 1),
                    *config,
                    now,
                )) =~= before.take(i + 1) + kept(before.skip(i + 1), *config, now));
                i += 1;
            }
        }
        proof {
            assert(self.remotes@.take(i as int) =~= self.remotes@);
            assert(self.remotes@.skip(i as int) =~= Seq::<ServerRemote<O, I>>::empty());
            assert(self.remotes@ + Seq::<ServerRemote<O, I>>::empty() =~= self.remotes@);
        }
    }

    /// Sets the migration order of all remotes anew: each gets its index,
    /// the hosting connection goes last.
    fn reorder(&mut self)
        requires
            old(self).wf(),
        ensures
            final(self).wf(),
            final(self).remotes@ == reordered(old(self).remotes@, old(self).host_id),
            final(self)@ == (ServerModel { remotes: final(self).remotes@, ..old(self)@ }),
    {
        let mut k: usize = 0;
        while k < self.remotes.len()
            invariant
                k <= self.remotes@.len(),
                self.remotes@.len() == old(self).remotes@.len(),
                forall|j: int|
                    0 <= j < k ==> self.remotes@[j] == reordered(
                        old(self).remotes@,
                        old(self).host_id,
                    )[j],
                forall|j: int| k <= j < self.remotes@.len() ==> self.remotes@[j] == old(self).remotes@[j],
                self@ == (ServerModel { remotes: self.remotes@, ..old(self)@ }),
            decreases self.remotes@.len() - k,
        {
            let order = if self.remotes[k].connection.id.raw() == self.host_id.raw() {
                HOST_ORDER
            } else {
                assert(k as u8 == (k % 256) as u8) by (bit_vector);
                #[verifier::truncate]
                (k as u8)
            };
            self.remotes[k].set_order(order);
            k += 1;
        }
        proof {
            let after = self.remotes@;
            assert(after =~= reordered(old(self).remotes@, old(self).host_id));
            assert forall|i: int, j: int| 0 <= i < j < after.len() implies after[i].connection.id@
                < after[j].connection.id@ by {
                assert(after[i].connection.id == old(self).remotes@[i].connection.id);
                assert(after[j].connection.id == old(self).remotes@[j].connection.id);
            }
        }
    }

    /// Advances the sequence where every remote has sent its input, and
    /// sets the simulation ticks of the next sequence.
    fn pace(&mut self, config: &Config, now: u64)
        requires
            1 <= config.high_tick_rate <= 1000,
        ensures
            final(self)@ == old(self)@.paced(*config, now),
    {
        if !self.started || self.remotes.len() == 0 {
            return ;
        }
        let next = next_in_sequence(self.sequence);
        let mut all_match = true;
        let mut k: usize = 0;
        while k < self.remotes.len()
            invariant
                k <= self.remotes@.len(),
                all_match == all_wait_for(self.remotes@.take(k as int), next),
            decreases self.remotes@.len() - k,
        {
            let ghost seen = all_match;
            if self.remotes[k].sequence() != next {
                all_match = false;
            }
            proof {
                let shorter = self.remotes@.take(k as int);
                let longer = self.remotes@.take(k + 1);
                if all_match {
                    assert forall|j: int| 0 <= j < longer.len() implies longer[j].sequence
                        == next by {
                        if j < k {
                            assert(shorter[j].sequence == next);
                        }
                    }
                } else if seen {
                    assert(longer[k as int].sequence != next);
                } else {
                    let j = choose|j: int| 0 <= j < shorter.len() && shorter[j].sequence != next;
                    assert(longer[j].sequence != next);
                }
            }
            k += 1;
        }
        assert(self.remotes@.take(k as int) =~= self.remotes@);
        if all_match {
            let tick_ms: u32 = (1000 / config.high_tick_rate) as u32;
            assert(1 <= 1000u64 / config.high_tick_rate <= 1000) by (nonlinear_arith)
                requires
                    1 <= config.high_tick_rate <= 1000,
            ;
            let elapsed: u64 = if now > self.last_tick_time {
                now - self.last_tick_time
            } else {
                0
            };
            let taken: u32 = if elapsed > u32::MAX as u64 {
                u32::MAX
            } else {
                elapsed as u32
            };
            let late: u32 = if taken > tick_ms {
                taken - tick_ms
            } else {
                0
            };
            let backlog: u32 = if late > u32::MAX - self.tick_buffer {
                u32::MAX
            } else {
                self.tick_buffer + late
            };
            let whole: u32 = backlog / tick_ms;
            let extra: u32 = if whole > CATCH_UP_MAX {
                CATCH_UP_MAX
            } else {
                whole
            };
            assert(extra * tick_ms <= backlog) by (nonlinear_arith)
                requires
                    extra <= backlog / tick_ms,
                    tick_ms > 0,
            ;
            self.tick_buffer = backlog - extra * tick_ms;
            self.ticks_per_sequence = 1 + extra as u8;
            self.last_tick_time = now;
            self.sequence = next;
        }
    }

    /// The lowest tick among the remotes.
    fn lowest(&self) -> (r: Option<ServerTick>)
        ensures
            r == self@.shared_tick(),
    {
        let mut lowest: Option<ServerTick> = None;
        let mut k: usize = 0;
        while k < self.remotes.len()
            invariant
                k <= self.remotes@.len(),
                lowest == lowest_tick(self.remotes@, k as int),
            decreases self.remotes@.len() - k,
        {
            let tick = self.remotes[k].tick();
            lowest = match lowest {
                None => Some(tick),
                Some(low) => if tick.precedes(low) {
                    Some(tick)
                } else {
                    Some(low)
                },
            };
            k += 1;
        }
        lowest
    }

    /// Builds one packet for each remote, in the order of the remotes. Gives
    /// the packets and the records that the options and the inputs were
    /// encoded as.
    fn broadcast(&self, config: &Config, tick: ServerTick) -> (r: (Vec<Datagram>, Ghost<Broadcast>))
        ensures
            r.1@ == self@.content(r.1@.options, r.1@.inputs),
            r.1@.options.len() <= r.1@.declared_options,
            r.1@.inputs.len() <= r.1@.declared_inputs,
            datagrams(r.0@) == Seq::new(
                self.remotes@.len(),
                |k: int| self@.packet_for(*config, tick, r.1@, k),
            ),
    {
        // The remotes stand by connection ID, which prevents any possible de-sync
        let mut connections: Vec<&RemoteConnection> = Vec::new();
        let mut options: Vec<&RemoteOptions<O>> = Vec::new();
        let mut inputs: Vec<&RemoteInput<I>> = Vec::new();
        let mut k: usize = 0;
        while k < self.remotes.len()
            invariant
                k <= self.remotes@.len(),
                connections@.len() == k,
                crate::clockwork::server_remote::pointees(connections@) == roster_of(
                    self.remotes@,
                ).take(k as int),
                crate::clockwork::server_remote::pointees(options@) == options_of(
                    self.remotes@,
                    k as int,
                ),
                crate::clockwork::server_remote::pointees(inputs@) == inputs_of(
                    self.remotes@,
                    k as int,
                ),
            decreases self.remotes@.len() - k,
        {
            let remote = &self.remotes[k];
            let ghost c0 = connections@;
            let ghost o0 = options@;
            let ghost i0 = inputs@;
            connections.push(remote.connection());
            assert forall|j: int| 0 <= j < k + 1 implies crate::clockwork::server_remote::pointees(
                connections@,
            )[j] == roster_of(self.remotes@)[j] by {
                if j < k {
                    assert(crate::clockwork::server_remote::pointees(c0)[j] == roster_of(
                        self.remotes@,
                    ).take(k as int)[j]);
                }
            }
            assert(crate::clockwork::server_remote::pointees(connections@) =~= roster_of(
                self.remotes@,
            ).take(k + 1));
            match remote.options() {
                Some(o) => {
                    options.push(o);
                    assert(crate::clockwork::server_remote::pointees(options@)
                        =~= crate::clockwork::server_remote::pointees(o0).push(*o));
                },
                None => {},
            }
            match remote.input() {
                Some(i) => {
                    inputs.push(i);
                    assert(crate::clockwork::server_remote::pointees(inputs@)
                        =~= crate::clockwork::server_remote::pointees(i0).push(*i));
                },
                None => {},
            }
            k += 1;
        }
        assert(roster_of(self.remotes@).take(k as int) =~= roster_of(self.remotes@));
        let encoded_options = encode_options(options.as_slice());
        let encoded_inputs = encode_inputs(inputs.as_slice());
        let ghost content = self@.content(
            crate::clockwork::server_remote::byte_lists(encoded_options@),
            crate::clockwork::server_remote::byte_lists(encoded_inputs@),
        );
        assert(crate::clockwork::server_remote::pointees(options@).len() == options@.len());
        assert(crate::clockwork::server_remote::pointees(inputs@).len() == inputs@.len());
        let mut outbox: Vec<Datagram> = Vec::new();
        let mut k: usize = 0;
        while k < self.remotes.len()
            invariant
                k <= self.remotes@.len(),
                outbox@.len() == k,
                crate::clockwork::server_remote::pointees(connections@) == roster_of(
                    self.remotes@,
                ),
                content == self@.content(
                    crate::clockwork::server_remote::byte_lists(encoded_options@),
                    crate::clockwork::server_remote::byte_lists(encoded_inputs@),
                ),
                options@.len() == content.declared_options,
                inputs@.len() == content.declared_inputs,
                forall|j: int|
                    0 <= j < k ==> (outbox@[j].0, outbox@[j].1@) == self@.packet_for(
                        *config,
                        tick,
                        content,
                        j,
                    ),
            decreases self.remotes@.len() - k,
        {
            let remote = &self.remotes[k];
            let packet = remote.frame(
                config,
                tick,
                self.sequence,
                self.ticks_per_sequence,
                self.host_id,
                connections.as_slice(),
                options.len(),
                &encoded_options,
                inputs.len(),
                &encoded_inputs,
            );
            outbox.push((remote.connection().address(), packet));
            k += 1;
        }
        assert(datagrams(outbox@) =~= Seq::new(
            self.remotes@.len(),
            |k: int| self@.packet_for(*config, tick, content, k),
        ));
        (outbox, Ghost(content))
    }

    /// The steps of a tick that follow the inbox: drops lost remotes, sets
    /// the migration order anew where a remote has joined, paces the input
    /// sequence, and starts the session when all remotes have reached
    /// `Initialize`. Gives the tick that the remotes share, if there is a
    /// remote.
    pub fn settle(&mut self, config: &Config, now: u64, joined: bool) -> (tick: Option<ServerTick>)
        requires
            old(self).wf(),
            1 <= config.high_tick_rate <= 1000,
        ensures
            final(self).wf(),
            final(self)@ == (ServerModel {
                remotes: if joined {
                    reordered(kept(old(self).remotes@, *config, now), old(self).host_id)
                } else {
                    kept(old(self).remotes@, *config, now)
                },
                ..old(self)@
            }).paced(*config, now).opened(now),
            tick == final(self)@.shared_tick(),
    {
        self.drop_lost(config, now);
        if joined {
            self.reorder();
        }
        self.pace(config, now);
        let tick = self.lowest();
        match tick {
            Some(lowest) => {
                if !self.started && lowest == ServerTick::Initialize {
                    self.last_tick_time = now;
                    self.started = true;
                }
            },
            None => {},
        }
        tick
    }

    /// One tick of the server at `now`, a time in milliseconds: takes in the
    /// packets that arrived, drops lost remotes, paces the input sequence,
    /// and gives the packets to send with the rate, in packets per second,
    /// at which to tick on.
    ///
    /// The payloads are read and written with the codecs of the application:
    /// the server is after the tick what it is for some reading of the
    /// packets, and sends what it sends for some encoding of the options
    /// and the inputs.
    pub fn tick(&mut self, config: &Config, now: u64, inbox: Vec<Datagram>) -> (r: (u64, Vec<Datagram>))
        requires
            old(self).wf(),
            1 <= config.high_tick_rate <= 1000,
        ensures
            final(self).wf(),
            exists|messages: Seq<ClientMessage<O, I>>|
                old(self)@.reads(*config, inbox@, messages, now) && final(self)@
                    == #[trigger] old(self)@.ticked(*config, inbox@, messages, now),
            r.0 == final(self)@.rate(*config),
            exists|options: Seq<Seq<u8>>, inputs: Seq<Seq<u8>>|
                options.len() <= final(self)@.content(options, inputs).declared_options
                    && inputs.len() <= final(self)@.content(options, inputs).declared_inputs
                    && datagrams(r.1@) == final(self)@.outbox(
                    *config,
                    #[trigger] final(self)@.content(options, inputs),
                ),
    {
        let (joined, read) = self.absorb(config, inbox, now);
        assert(self@ == old(self)@.after_inbox(*config, inbox@, read@, now));
        match self.settle(config, now, joined) {
            Some(tick) => {
                assert(self@ == old(self)@.ticked(*config, inbox@, read@, now));
                let (outbox, content) = self.broadcast(config, tick);
                let rate = if !tick.precedes(ServerTick::Initialize) {
                    config.high_tick_rate
                } else {
                    config.low_tick_rate
                };
                proof {
                    assert(datagrams(outbox@) == self@.outbox(
                        *config,
                        self@.content(content@.options, content@.inputs),
                    ));
                }
                (rate, outbox)
            },
            None => {
                assert(self@ == old(self)@.ticked(*config, inbox@, read@, now));
                let outbox: Vec<Datagram> = Vec::new();
                proof {
                    let none = Seq::<Seq<u8>>::empty();
                    assert(datagrams(outbox@) =~= self@.outbox(*config, self@.content(none, none)));
                }
                (config.low_tick_rate, outbox)
            },
        }
    }
}

} // verus!
