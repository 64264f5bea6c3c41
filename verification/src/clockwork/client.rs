//! The client: its connection to the host, the roster of the session, and
//! the application's state that the session drives.

use std::collections::hash_map::DefaultHasher;
use std::hash::Hasher;
use vstd::prelude::*;
use vstd::bytes::u64_to_le_bytes;
use vstd::std_specs::hash::DefaultHasherAdditionalSpecFns;
use crate::clockwork::client_remote::{ClientEvent, ClientRemote, ClientSignal, HostContent};
use crate::clockwork::config::Config;
use crate::clockwork::connection::{RemoteAddr, RemoteConnection};
use crate::clockwork::event::{Error, Event};
use crate::clockwork::ids::{ConnectionID, HostID};
use crate::clockwork::input::RemoteInput;
use crate::clockwork::options::RemoteOptions;
use crate::clockwork::server::Datagram;
use crate::clockwork::tick::{ClientTick, ServerTick};
use crate::clockwork::traits::{Input, Options, State};
use crate::clockwork::wire::connection_id_from_packet;

verus! {

/// How the client stands with its host.
#[derive(Debug, PartialEq, Eq, Structural, Copy, Clone)]
pub enum NetworkStatus {
    Connecting,
    Reconnecting,
    Connected,
    Disconnected,
}

/// What a new host needs to know of the session that it takes over.
pub struct Migration {
    pub previous_host: HostID,
    pub local_host: ConnectionID,
    pub connection: Vec<(ConnectionID, RemoteConnection)>,
}

/// Implementation of a lock step protocol client.
pub struct ClockworkClient<S, O, I> {
    /// State shared across all remotes.
    pub state: S,
    /// Local client state.
    pub local: ClientRemote<O>,
    /// All known remote connections from the host this client is currently
    /// connected to, by ascending identifier.
    pub connections: Vec<RemoteConnection>,
    /// ConnectionID of the current host this client is connected to.
    pub host_id: HostID,
    /// The remotes that were already tried as hosts during the migration
    /// that is under way.
    pub used_host_migrations: Vec<ConnectionID>,
    /// Whether or not the client was disconnected from its host.
    pub network_status: NetworkStatus,
    /// Hash for options change detection.
    pub last_options_hash: Option<u64>,
    /// Local input queue of yet to be confirmed inputs.
    pub input_queue: Vec<I>,
}

/// A client without the application's state, its lists as sequences.
pub struct ClientModel<O, I> {
    pub local: ClientRemote<O>,
    pub connections: Seq<RemoteConnection>,
    pub host_id: HostID,
    pub used_host_migrations: Seq<ConnectionID>,
    pub network_status: NetworkStatus,
    pub last_options_hash: Option<u64>,
    pub input_queue: Seq<I>,
}

impl<S, O, I> View for ClockworkClient<S, O, I> {
    type V = ClientModel<O, I>;

    open spec fn view(&self) -> ClientModel<O, I> {
        ClientModel {
            local: self.local,
            connections: self.connections@,
            host_id: self.host_id,
            used_host_migrations: self.used_host_migrations@,
            network_status: self.network_status,
            last_options_hash: self.last_options_hash,
            input_queue: self.input_queue@,
        }
    }
}

/// The connections stand by ascending identifier, so none occurs twice.
pub open spec fn sorted(connections: Seq<RemoteConnection>) -> bool {
    forall|i: int, j: int| 0 <= i < j < connections.len() ==> connections[i].id@ < connections[j].id@
}

/// The place of `id` in the roster: the number of connections in front
/// with a lower identifier.
pub open spec fn place(connections: Seq<RemoteConnection>, id: u32) -> int
    decreases connections.len(),
{
    if connections.len() == 0 || connections[0].id@ >= id {
        0
    } else {
        1 + place(connections.skip(1), id)
    }
}

/// Whether the roster holds a connection with this identifier.
pub open spec fn known(connections: Seq<RemoteConnection>, id: u32) -> bool {
    place(connections, id) < connections.len() && connections[place(connections, id)].id@ == id
}

/// The roster with `connection` in it, in place of the one with its
/// identifier where there was one.
pub open spec fn upserted(connections: Seq<RemoteConnection>, connection: RemoteConnection) -> Seq<RemoteConnection> {
    if known(connections, connection.id@) {
        connections.update(place(connections, connection.id@), connection)
    } else {
        connections.insert(place(connections, connection.id@), connection)
    }
}

/// The roster after the first `upto` connections that the host announced,
/// with an event for each that was not known before.
pub open spec fn joined(connections: Seq<RemoteConnection>, roster: Seq<RemoteConnection>, upto: int) -> (Seq<RemoteConnection>, Seq<Event>)
    decreases upto,
{
    if upto <= 0 {
        (connections, Seq::empty())
    } else {
        let (before, events) = joined(connections, roster, upto - 1);
        let connection = roster[upto - 1];
        (
            upserted(before, connection),
            if known(before, connection.id@) {
                events
            } else {
                events.push(Event::RemoteJoined(connection.address, connection.id))
            },
        )
    }
}

/// Identifier and address of every connection, in the order of the roster.
pub open spec fn addresses(connections: Seq<RemoteConnection>) -> Seq<(ConnectionID, RemoteAddr)> {
    Seq::new(connections.len(), |k: int| (connections[k].id, connections[k].address))
}

/// Identifier and payload of all options, in their order.
pub open spec fn option_pairs<O>(options: Seq<RemoteOptions<O>>) -> Seq<(ConnectionID, O)> {
    Seq::new(options.len(), |k: int| (options[k].id, options[k].data))
}

/// What is hashed of the options: the bytes of each content hash, in the
/// order of the options.
pub open spec fn hashed_content(hashes: Seq<u64>) -> Seq<Seq<u8>> {
    Seq::new(hashes.len(), |k: int| vstd::bytes::spec_u64_to_le_bytes(hashes[k]))
}

/// Whether the application gives the hash at each place as the content hash
/// of the options at that place.
pub open spec fn options_hash_to<O: Options>(options: Seq<RemoteOptions<O>>, hashes: Seq<u64>) -> bool {
    hashes.len() == options.len() && forall|k: int|
        0 <= k < options.len() ==> #[trigger] call_ensures(
            O::content_hash,
            (&options[k].data,),
            hashes[k],
        )
}

/// The hash over the content hashes of all options, by which the client
/// tells whether the options have changed.
pub open spec fn options_digest(hashes: Seq<u64>) -> u64 {
    DefaultHasher::spec_finish(hashed_content(hashes))
}

/// Whether the host has sent an input of `id`.
pub open spec fn heard<I>(inputs: Seq<RemoteInput<I>>, id: ConnectionID) -> bool {
    exists|k: int| 0 <= k < inputs.len() && inputs[k].id == id
}

/// The connections of which the host has sent an input, in their order.
pub open spec fn staying<I>(connections: Seq<RemoteConnection>, inputs: Seq<RemoteInput<I>>) -> Seq<RemoteConnection>
    decreases connections.len(),
{
    if connections.len() == 0 {
        Seq::empty()
    } else if heard(inputs, connections[0].id) {
        seq![connections[0]] + staying(connections.skip(1), inputs)
    } else {
        staying(connections.skip(1), inputs)
    }
}

/// An event for each connection of which the host has sent no input, in
/// the order of the connections.
pub open spec fn leaving<I>(connections: Seq<RemoteConnection>, inputs: Seq<RemoteInput<I>>) -> Seq<Event>
    decreases connections.len(),
{
    if connections.len() == 0 {
        Seq::empty()
    } else if heard(inputs, connections[0].id) {
        leaving(connections.skip(1), inputs)
    } else {
        seq![Event::RemoteLeft(connections[0].address, connections[0].id)] + leaving(
            connections.skip(1),
            inputs,
        )
    }
}

/// The local queue after the host has sent `input`: where the input is the
/// client's own and not empty, as many inputs as it holds are confirmed and
/// leave the front of the queue.
pub open spec fn confirmed_queue<I>(queue: Seq<I>, local: ConnectionID, input: RemoteInput<I>) -> Seq<I> {
    if input.id == local && input.data@.len() > 0 {
        if input.data@.len() <= queue.len() {
            queue.skip(input.data@.len() as int)
        } else {
            Seq::empty()
        }
    } else {
        queue
    }
}

/// The local queue after the inputs of the first `upto` remotes.
pub open spec fn confirmed<I>(queue: Seq<I>, local: ConnectionID, inputs: Seq<RemoteInput<I>>, upto: int) -> Seq<I>
    decreases upto,
{
    if upto <= 0 {
        queue
    } else {
        confirmed_queue(confirmed(queue, local, inputs, upto - 1), local, inputs[upto - 1])
    }
}

/// The index of the next host among the first `upto` connections: of those
/// that were not tried yet, the first with the lowest migration order.
pub open spec fn candidate(connections: Seq<RemoteConnection>, used: Seq<ConnectionID>, upto: int) -> Option<int>
    decreases upto,
{
    if upto <= 0 {
        None
    } else {
        let untried = !used.contains(connections[upto - 1].id);
        match candidate(connections, used, upto - 1) {
            None => if untried {
                Some(upto - 1)
            } else {
                None
            },
            Some(best) => if untried && connections[upto - 1].order < connections[best].order {
                Some(upto - 1)
            } else {
                Some(best)
            },
        }
    }
}

/// The events of the client's packets as signals.
pub open spec fn signals<O, I>(events: Seq<ClientEvent<O, I>>) -> Seq<ClientSignal<O, I>> {
    Seq::new(events.len(), |k: int| events[k]@)
}

/// A call that the client makes on the application's state.
pub enum StateCall<O, I> {
    /// `init` with the roster.
    Init(Vec<(ConnectionID, RemoteAddr)>),
    /// `apply_options` with the options of all remotes; the client asks
    /// `is_ready` right after it.
    Options(Vec<(ConnectionID, O)>),
    /// `apply_input` with one input of a remote.
    Input(ConnectionID, I),
    /// `tick` with the roster, as many times as given.
    Ticks(u8, Vec<(ConnectionID, RemoteAddr)>),
}

/// A `StateCall` with its lists as sequences.
pub enum PlannedCall<O, I> {
    Init(Seq<(ConnectionID, RemoteAddr)>),
    Options(Seq<(ConnectionID, O)>),
    Input(ConnectionID, I),
    Ticks(u8, Seq<(ConnectionID, RemoteAddr)>),
}

impl<O, I> View for StateCall<O, I> {
    type V = PlannedCall<O, I>;

    open spec fn view(&self) -> PlannedCall<O, I> {
        match self {
            StateCall::Init(roster) => PlannedCall::Init(roster@),
            StateCall::Options(options) => PlannedCall::Options(options@),
            StateCall::Input(sender, input) => PlannedCall::Input(*sender, *input),
            StateCall::Ticks(ticks, roster) => PlannedCall::Ticks(*ticks, roster@),
        }
    }
}

/// The calls of a list as planned calls.
pub open spec fn planned<O, I>(calls: Seq<StateCall<O, I>>) -> Seq<PlannedCall<O, I>> {
    Seq::new(calls.len(), |k: int| calls[k]@)
}

/// One call for each input of a remote, in their order.
pub open spec fn calls_of_input<O, I>(input: RemoteInput<I>) -> Seq<PlannedCall<O, I>> {
    Seq::new(input.data@.len(), |k: int| PlannedCall::Input(input.id, input.data@[k]))
}

/// One call for each input of the first `upto` remotes, remote by remote.
pub open spec fn input_calls<O, I>(inputs: Seq<RemoteInput<I>>, upto: int) -> Seq<PlannedCall<O, I>>
    decreases upto,
{
    if upto <= 0 {
        Seq::empty()
    } else {
        input_calls::<O, I>(inputs, upto - 1) + calls_of_input::<O, I>(inputs[upto - 1])
    }
}

/// Every call for the inputs of a sequence hands one input to the state.
pub proof fn inputs_are_applied_one_by_one<O, I>(inputs: Seq<RemoteInput<I>>, upto: int)
    requires
        0 <= upto <= inputs.len(),
    ensures
        forall|k: int|
            0 <= k < input_calls::<O, I>(inputs, upto).len() ==> #[trigger] input_calls::<O, I>(
                inputs,
                upto,
            )[k] is Input,
    decreases upto,
{
    if upto > 0 {
        inputs_are_applied_one_by_one::<O, I>(inputs, upto - 1);
        let before = input_calls::<O, I>(inputs, upto - 1);
        let all = input_calls::<O, I>(inputs, upto);
        assert forall|k: int| 0 <= k < all.len() implies #[trigger] all[k] is Input by {
            if k < before.len() {
                assert(all[k] == before[k]);
            } else {
                assert(all[k] == calls_of_input::<O, I>(inputs[upto - 1])[k - before.len()]);
            }
        }
    }
}

/// What the application's state has answered while the client took one
/// signal: the hash over the options, and whether the state was ready
/// after it had taken them. Both count for a signal with options only.
pub struct Answer {
    pub hash: u64,
    pub ready: bool,
}

impl<O: Options, I: Input> ClientModel<O, I> {
    /// The client after the host was found.
    pub open spec fn connected_to(self, config: Config, id: ConnectionID) -> (ClientModel<O, I>, Seq<Event>) {
        (
            ClientModel { host_id: HostID { id: id.id }, ..self },
            seq![Event::HostConnect(config.remote_addr, HostID { id: id.id }, self.local.connection.id)],
        )
    }

    /// Whether options with this hash differ from those that were applied
    /// last.
    pub open spec fn options_changed(self, hash: u64) -> bool {
        self.last_options_hash != Some(hash)
    }

    /// The client after the host has confirmed options with the hash
    /// `hash`. Options with the hash of those that were applied last change
    /// nothing. Others go to the state, and the client is ready where the
    /// state then is.
    pub open spec fn with_options(self, hash: u64, ready: bool) -> (ClientModel<O, I>, Seq<Event>) {
        if self.options_changed(hash) {
            (
                ClientModel {
                    last_options_hash: Some(hash),
                    local: if ready {
                        ClientRemote { tick: ClientTick::Ready, ..self.local }
                    } else {
                        self.local
                    },
                    ..self
                },
                seq![Event::RemoteOptions],
            )
        } else {
            (self, Seq::empty())
        }
    }

    /// The client after the host is ready. The announced connections, if
    /// any, join the roster. A client that was not connected is then
    /// connected, and forgets which hosts it has tried.
    pub open spec fn with_roster(self, config: Config, roster: Option<Seq<RemoteConnection>>) -> (ClientModel<O, I>, Seq<Event>) {
        let (connections, joins) = match roster {
            Some(announced) => joined(self.connections, announced, announced.len() as int),
            None => (self.connections, Seq::empty()),
        };
        if self.network_status != NetworkStatus::Connected {
            (
                ClientModel {
                    connections,
                    used_host_migrations: Seq::empty(),
                    network_status: NetworkStatus::Connected,
                    ..self
                },
                joins.push(
                    Event::HostReady(config.remote_addr, self.host_id, self.local.connection.id),
                ),
            )
        } else {
            (ClientModel { connections, ..self }, joins)
        }
    }

    /// The client after the inputs of one sequence: the client's own leave
    /// its queue, and connections without an input leave the roster.
    pub open spec fn with_inputs(self, inputs: Seq<RemoteInput<I>>) -> (ClientModel<O, I>, Seq<Event>) {
        (
            ClientModel {
                input_queue: confirmed(
                    self.input_queue,
                    self.local.connection.id,
                    inputs,
                    inputs.len() as int,
                ),
                connections: staying(self.connections, inputs),
                ..self
            },
            leaving(self.connections, inputs),
        )
    }

    /// The calls on the application's state that a signal stands for, where
    /// the options of a signal with options have the hash `hash`: new
    /// options are applied; a connecting client is initialized with the
    /// roster that it has when the host's roster comes; and the inputs of a
    /// sequence are applied one by one, remote by remote, before the state
    /// runs the simulation ticks of the sequence with the roster of those
    /// that stay.
    pub open spec fn calls(self, signal: ClientSignal<O, I>, hash: u64) -> Seq<PlannedCall<O, I>> {
        match signal {
            ClientSignal::Connected(_) => Seq::empty(),
            ClientSignal::Options(options) => if self.options_changed(hash) {
                seq![PlannedCall::Options(option_pairs(options))]
            } else {
                Seq::empty()
            },
            ClientSignal::Ready(roster) => if roster is Some && self.network_status
                == NetworkStatus::Connecting {
                seq![PlannedCall::Init(addresses(self.connections))]
            } else {
                Seq::empty()
            },
            ClientSignal::Inputs(ticks, inputs) => input_calls::<O, I>(inputs, inputs.len() as int)
                + seq![PlannedCall::Ticks(ticks, addresses(staying(self.connections, inputs)))],
        }
    }

    /// Only new options make the client ask the state whether it is ready:
    /// a call with options is planned for a signal with options that have
    /// changed, and is then the only call.
    pub proof fn options_are_asked_once(self, signal: ClientSignal<O, I>, hash: u64)
        ensures
            signal is Options && self.options_changed(hash) ==> self.calls(signal, hash).len() == 1
                && self.calls(signal, hash)[0] is Options,
            !(signal is Options && self.options_changed(hash)) ==> forall|k: int|
                0 <= k < self.calls(signal, hash).len() ==> !(#[trigger] self.calls(
                    signal,
                    hash,
                )[k] is Options),
    {
        match signal {
            ClientSignal::Inputs(ticks, inputs) => {
                inputs_are_applied_one_by_one::<O, I>(inputs, inputs.len() as int);
            },
            _ => {},
        }
    }

    /// The client and the events after one signal, with what the state has
    /// answered.
    pub open spec fn after(self, config: Config, signal: ClientSignal<O, I>, answer: Answer) -> (ClientModel<O, I>, Seq<Event>) {
        match signal {
            ClientSignal::Connected(id) => self.connected_to(config, id),
            ClientSignal::Options(_) => self.with_options(answer.hash, answer.ready),
            ClientSignal::Ready(roster) => self.with_roster(config, roster),
            ClientSignal::Inputs(_, inputs) => self.with_inputs(inputs),
        }
    }

    /// The client and all events after the first `upto` signals, with the
    /// state's answer to each.
    pub open spec fn applied(self, config: Config, all: Seq<ClientSignal<O, I>>, answers: Seq<Answer>, upto: int) -> (ClientModel<O, I>, Seq<Event>)
        decreases upto,
    {
        if upto <= 0 {
            (self, Seq::empty())
        } else {
            let (before, events) = self.applied(config, all, answers, upto - 1);
            let (after, more) = before.after(config, all[upto - 1], answers[upto - 1]);
            (after, events + more)
        }
    }
}

/// The signals of the first `upto` packets of the inbox, the packet at each
/// index holding the content at that index, and the client's remote after
/// them. Only packets from the host's address that name a sender reach the
/// remote.
pub open spec fn collected<O: Options, I: Input>(
    local: ClientRemote<O>,
    config: Config,
    inbox: Seq<Datagram>,
    contents: Seq<HostContent<O, I>>,
    upto: int,
    now: u64,
) -> (ClientRemote<O>, Seq<ClientSignal<O, I>>)
    decreases upto,
{
    if upto <= 0 {
        (local, Seq::empty())
    } else {
        let (before, found) = collected::<O, I>(local, config, inbox, contents, upto - 1, now);
        let (addr, packet) = inbox[upto - 1];
        if addr == config.remote_addr {
            match crate::clockwork::wire::packet_sender(config.protocol_header@, packet@) {
                Some(id) => {
                    let (after, signal) = before.taken::<I>(
                        id,
                        ServerTick::of_code(packet@[8]),
                        contents[upto - 1],
                        now,
                    );
                    (
                        after,
                        match signal {
                            Some(signal) => found.push(signal),
                            None => found,
                        },
                    )
                },
                None => (before, found),
            }
        } else {
            (before, found)
        }
    }
}

/// Whether each packet of the inbox that reaches the client's remote can be
/// read as the content at its index, by the remote as it is when its turn
/// comes.
pub open spec fn read_in_turn<O: Options, I: Input>(
    local: ClientRemote<O>,
    config: Config,
    inbox: Seq<Datagram>,
    contents: Seq<HostContent<O, I>>,
    upto: int,
    now: u64,
) -> bool
    decreases upto,
{
    if upto <= 0 {
        true
    } else {
        let before = collected::<O, I>(local, config, inbox, contents, upto - 1, now).0;
        read_in_turn::<O, I>(local, config, inbox, contents, upto - 1, now) && (inbox[upto - 1].0
            == config.remote_addr && crate::clockwork::wire::packet_sender(
            config.protocol_header@,
            inbox[upto - 1].1@,
        ) is Some ==> crate::clockwork::client_remote::reads_as(
            before.tick,
            inbox[upto - 1].1@,
            contents[upto - 1],
        ))
    }
}

impl<O: Options, I: Input> ClientModel<O, I> {
    /// Whether the host has timed out at `now`.
    pub open spec fn lost(self, config: Config, now: u64) -> bool {
        self.local.timed_out_at(&config, now)
    }

    /// The client whose host has timed out.
    pub open spec fn disconnected(self) -> ClientModel<O, I> {
        ClientModel { network_status: NetworkStatus::Disconnected, ..self }
    }

    /// The client and the events after the packets of the inbox at `now`,
    /// the packet at each index holding the content at that index, with the
    /// state's answer to each signal.
    pub open spec fn received(self, config: Config, inbox: Seq<Datagram>, contents: Seq<HostContent<O, I>>, answers: Seq<Answer>, now: u64) -> (ClientModel<O, I>, Seq<Event>) {
        let (local, found) = collected::<O, I>(
            self.local,
            config,
            inbox,
            contents,
            inbox.len() as int,
            now,
        );
        (ClientModel { local, ..self }).applied(config, found, answers, found.len() as int)
    }

    /// Whether every packet of the inbox can be read as the content at its
    /// index when its turn comes.
    pub open spec fn reads(self, config: Config, inbox: Seq<Datagram>, contents: Seq<HostContent<O, I>>, now: u64) -> bool {
        contents.len() == inbox.len() && read_in_turn::<O, I>(
            self.local,
            config,
            inbox,
            contents,
            inbox.len() as int,
            now,
        )
    }

    /// The client after it has picked the next host, and what it has
    /// picked: no address where the client itself is next. Another remote
    /// that was picked counts as tried from then on.
    pub open spec fn migrated(self) -> (ClientModel<O, I>, Option<(Option<RemoteAddr>, HostID, ConnectionID)>) {
        match candidate(self.connections, self.used_host_migrations, self.connections.len() as int) {
            None => (self, None),
            Some(best) => {
                let next = self.connections[best];
                if next.id == self.local.connection.id {
                    (self, Some((None, HostID { id: next.id.id }, self.local.connection.id)))
                } else {
                    (
                        ClientModel {
                            used_host_migrations: self.used_host_migrations.push(next.id),
                            ..self
                        },
                        Some(
                            (
                                Some(next.address),
                                HostID { id: next.id.id },
                                self.local.connection.id,
                            ),
                        ),
                    )
                }
            },
        }
    }
}

/// What the first packets of an inbox tell depends on their contents alone.
proof fn same_prefix<O: Options, I: Input>(
    local: ClientRemote<O>,
    config: Config,
    inbox: Seq<Datagram>,
    shorter: Seq<HostContent<O, I>>,
    longer: Seq<HostContent<O, I>>,
    upto: int,
    now: u64,
)
    requires
        0 <= upto <= shorter.len() <= longer.len(),
        forall|k: int| 0 <= k < upto ==> shorter[k] == longer[k],
    ensures
        collected::<O, I>(local, config, inbox, shorter, upto, now) == collected::<O, I>(
            local,
            config,
            inbox,
            longer,
            upto,
            now,
        ),
        read_in_turn::<O, I>(local, config, inbox, shorter, upto, now) == read_in_turn::<O, I>(
            local,
            config,
            inbox,
            longer,
            upto,
            now,
        ),
    decreases upto,
{
    if upto > 0 {
        same_prefix::<O, I>(local, config, inbox, shorter, longer, upto - 1, now);
    }
}

/// What the first signals do depends on the answers to them alone.
proof fn same_answers<O: Options, I: Input>(
    client: ClientModel<O, I>,
    config: Config,
    all: Seq<ClientSignal<O, I>>,
    shorter: Seq<Answer>,
    longer: Seq<Answer>,
    upto: int,
)
    requires
        0 <= upto <= shorter.len() <= longer.len(),
        forall|k: int| 0 <= k < upto ==> shorter[k] == longer[k],
    ensures
        client.applied(config, all, shorter, upto) == client.applied(config, all, longer, upto),
    decreases upto,
{
    if upto > 0 {
        same_answers(client, config, all, shorter, longer, upto - 1);
    }
}

/// The place of an identifier is where the lower identifiers end.
proof fn place_found(connections: Seq<RemoteConnection>, id: u32, k: int)
    requires
        0 <= k <= connections.len(),
        forall|j: int| 0 <= j < k ==> connections[j].id@ < id,
        k == connections.len() || connections[k].id@ >= id,
    ensures
        place(connections, id) == k,
    decreases k,
{
    if k > 0 {
        let rest = connections.skip(1);
        assert forall|j: int| 0 <= j < k - 1 implies rest[j].id@ < id by {
            assert(rest[j] == connections[j + 1]);
        }
        place_found(rest, id, k - 1);
    }
}

/// In front of the place of an identifier stand the lower identifiers, and
/// at it none that is lower.
proof fn place_bounds(connections: Seq<RemoteConnection>, id: u32)
    ensures
        0 <= place(connections, id) <= connections.len(),
        forall|j: int| 0 <= j < place(connections, id) ==> connections[j].id@ < id,
        place(connections, id) < connections.len() ==> connections[place(connections, id)].id@
            >= id,
    decreases connections.len(),
{
    if connections.len() == 0 || connections[0].id@ >= id {
    } else {
        let rest = connections.skip(1);
        place_bounds(rest, id);
        assert forall|j: int| 0 <= j < place(connections, id) implies connections[j].id@ < id by {
            if j > 0 {
                assert(rest[j - 1] == connections[j]);
            }
        }
        if place(connections, id) < connections.len() {
            assert(rest[place(rest, id)] == connections[place(connections, id)]);
        }
    }
}

/// A roster stays in ascending order when a connection joins or is
/// replaced.
proof fn sorted_upserted(connections: Seq<RemoteConnection>, connection: RemoteConnection)
    requires
        sorted(connections),
    ensures
        sorted(upserted(connections, connection)),
{
    let id = connection.id@;
    let k = place(connections, id);
    place_bounds(connections, id);
    let grown = upserted(connections, connection);
    if known(connections, id) {
        assert forall|i: int, j: int| 0 <= i < j < grown.len() implies grown[i].id@ < grown[j].id@ by {
            assert(grown[i].id == connections[i].id);
            assert(grown[j].id == connections[j].id);
        }
    } else {
        assert forall|i: int, j: int| 0 <= i < j < grown.len() implies grown[i].id@ < grown[j].id@ by {
            let a = if i < k { i } else { i - 1 };
            let b = if j < k { j } else { j - 1 };
            if i != k {
                assert(grown[i] == connections[a]);
            }
            if j != k {
                assert(grown[j] == connections[b]);
            }
        }
    }
}

/// A roster stays in ascending order when a connection leaves.
proof fn sorted_without(connections: Seq<RemoteConnection>, k: int)
    requires
        sorted(connections),
        0 <= k < connections.len(),
    ensures
        sorted(connections.remove(k)),
{
    let left = connections.remove(k);
    assert forall|i: int, j: int| 0 <= i < j < left.len() implies left[i].id@ < left[j].id@ by {
        let a = if i < k { i } else { i + 1 };
        let b = if j < k { j } else { j + 1 };
        assert(left[i] == connections[a]);
        assert(left[j] == connections[b]);
    }
}

/// Whether `id` stands in the list.
fn listed(ids: &Vec<ConnectionID>, id: ConnectionID) -> (r: bool)
    ensures
        r == ids@.contains(id),
{
    let mut k: usize = 0;
    while k < ids.len()
        invariant
            k <= ids@.len(),
            forall|j: int| 0 <= j < k ==> ids@[j] != id,
        decreases ids@.len() - k,
    {
        if ids[k] == id {
            return true;
        }
        k += 1;
    }
    false
}

/// A copy of the inputs.
fn copied<I: Copy>(inputs: &Vec<I>) -> (r: Vec<I>)
    ensures
        r@ == inputs@,
{
    let mut r: Vec<I> = Vec::with_capacity(inputs.len());
    let mut k: usize = 0;
    while k < inputs.len()
        invariant
            k <= inputs@.len(),
            r@ == inputs@.take(k as int),
        decreases inputs@.len() - k,
    {
        r.push(inputs[k]);
        assert(r@ =~= inputs@.take(k + 1));
        k += 1;
    }
    assert(inputs@.take(k as int) =~= inputs@);
    r
}

/// Calls `rand::random` for 32 bits. Nothing is known of what it gives.
#[verifier::external_body]
fn random_id() -> u32 {
    rand::random::<u32>()
}

/// Whether the host has sent an input of `id`.
fn heard_from<I>(inputs: &Vec<RemoteInput<I>>, id: ConnectionID) -> (r: bool)
    ensures
        r == heard(inputs@, id),
{
    let mut k: usize = 0;
    while k < inputs.len()
        invariant
            k <= inputs@.len(),
            forall|j: int| 0 <= j < k ==> inputs@[j].id != id,
        decreases inputs@.len() - k,
    {
        if inputs[k].id == id {
            return true;
        }
        k += 1;
    }
    false
}

/// The hash over the content hashes of all options, in their order.
pub fn combine_hashes(hashes: &Vec<u64>) -> (hash: u64)
    ensures
        hash == options_digest(hashes@),
{
    let mut hasher = DefaultHasher::new();
    let mut k: usize = 0;
    while k < hashes.len()
        invariant
            k <= hashes@.len(),
            hasher@ == hashed_content(hashes@).take(k as int),
        decreases hashes@.len() - k,
    {
        let bytes = u64_to_le_bytes(hashes[k]);
        hasher.write(bytes.as_slice());
        assert(hasher@ =~= hashed_content(hashes@).take(k + 1));
        k += 1;
    }
    assert(hashed_content(hashes@).take(k as int) =~= hashed_content(hashes@));
    hasher.finish()
}

impl<S, O: Options, I: Input> ClockworkClient<S, O, I> {
    /// The roster stands by ascending identifier.
    pub open spec fn wf(&self) -> bool {
        sorted(self.connections@)
    }

    /// A client that has not heard of its host yet.
    pub open spec fn with_id_model(config: Config, id: ConnectionID, now: u64) -> ClientModel<O, I> {
        ClientModel {
            local: ClientRemote {
                tick: ClientTick::WaitForServer,
                sequence: 0,
                options: None,
                connection: RemoteConnection { id, address: config.remote_addr, order: 0 },
                last_receive_time: now,
            },
            connections: Seq::empty(),
            host_id: HostID { id: 0 },
            used_host_migrations: Seq::empty(),
            network_status: NetworkStatus::Connecting,
            last_options_hash: None,
            input_queue: Seq::empty(),
        }
    }

    /// A client that connects as `id` to the host at the configured
    /// address.
    pub fn with_id(config: &Config, id: ConnectionID, state: S, now: u64) -> (r: Self)
        ensures
            r.wf(),
            r.state == state,
            r@ == Self::with_id_model(*config, id, now),
    {
        Self {
            state,
            local: ClientRemote::new(id, config.remote_addr, now),
            connections: Vec::new(),
            host_id: HostID::new(ConnectionID::new(0)),
            used_host_migrations: Vec::new(),
            network_status: NetworkStatus::Connecting,
            last_options_hash: None,
            input_queue: Vec::new(),
        }
    }

    /// A client that connects under a random identifier to the host at the
    /// configured address.
    pub fn new(config: &Config, state: S, now: u64) -> (r: Self)
        ensures
            r.wf(),
            r.state == state,
            r@ == Self::with_id_model(*config, r.local.connection.id, now),
    {
        Self::with_id(config, ConnectionID::new(random_id()), state, now)
    }

    /// The application's state.
    pub fn state(&mut self) -> (r: &mut S)
        ensures
            *r == old(self).state,
            *final(self) == (ClockworkClient { state: *final(r), ..*old(self) }),
    {
        &mut self.state
    }

    /// Stages the options that this client proposes.
    pub fn set_options(&mut self, options: O)
        ensures
            final(self).state == old(self).state,
            final(self)@ == (ClientModel {
                local: ClientRemote {
                    options: Some(RemoteOptions { id: old(self).local.connection.id, data: options }),
                    ..old(self).local
                },
                ..old(self)@
            }),
    {
        self.local.set_options(options);
    }

    /// Adds an input to the queue of inputs that wait to be confirmed.
    pub fn queue_input(&mut self, input: I)
        ensures
            final(self).state == old(self).state,
            final(self)@ == (ClientModel {
                input_queue: old(self).input_queue@.push(input),
                ..old(self)@
            }),
    {
        self.input_queue.push(input);
    }

    /// Starts over with a new host: the client waits for the server again,
    /// and the timeout counts from `now`.
    pub fn reconnect(&mut self, now: u64)
        ensures
            final(self).state == old(self).state,
            final(self)@ == (ClientModel {
                network_status: NetworkStatus::Reconnecting,
                local: ClientRemote {
                    tick: ClientTick::WaitForServer,
                    last_receive_time: now,
                    ..old(self).local
                },
                ..old(self)@
            }),
    {
        self.network_status = NetworkStatus::Reconnecting;
        self.local.reset(now);
    }

    /// Identifier and address of every connection of the roster.
    pub fn connections(&self) -> (r: Vec<(ConnectionID, RemoteAddr)>)
        ensures
            r@ == addresses(self.connections@),
    {
        let mut r: Vec<(ConnectionID, RemoteAddr)> = Vec::with_capacity(self.connections.len());
        let mut k: usize = 0;
        while k < self.connections.len()
            invariant
                k <= self.connections@.len(),
                r@ == addresses(self.connections@).take(k as int),
            decreases self.connections@.len() - k,
        {
            r.push((self.connections[k].id(), self.connections[k].address()));
            assert(r@ =~= addresses(self.connections@).take(k + 1));
            k += 1;
        }
        assert(addresses(self.connections@).take(k as int) =~= addresses(self.connections@));
        r
    }

    /// What a server that this client starts has to know of the session.
    pub fn migration(&self) -> (r: Migration)
        ensures
            r.previous_host == self.host_id,
            r.local_host == self.local.connection.id,
            r.connection@ == Seq::new(
                self.connections@.len(),
                |k: int| (self.connections@[k].id, self.connections@[k]),
            ),
    {
        let mut pairs: Vec<(ConnectionID, RemoteConnection)> = Vec::with_capacity(
            self.connections.len(),
        );
        let mut k: usize = 0;
        while k < self.connections.len()
            invariant
                k <= self.connections@.len(),
                pairs@ == Seq::new(
                    k as nat,
                    |j: int| (self.connections@[j].id, self.connections@[j]),
                ),
            decreases self.connections@.len() - k,
        {
            pairs.push((self.connections[k].id(), self.connections[k]));
            assert(pairs@ =~= Seq::new(
                (k + 1) as nat,
                |j: int| (self.connections@[j].id, self.connections@[j]),
            ));
            k += 1;
        }
        Migration {
            previous_host: self.host_id,
            local_host: self.local.connection().id(),
            connection: pairs,
        }
    }

    /// The packet to send to the host, if the client is not disconnected,
    /// and the rate, in packets per second, at which to send on. The packet
    /// holds the staged options, or all unconfirmed inputs, as the codecs of
    /// the application encode them.
    pub fn send(&self, config: &Config) -> (r: (u64, Option<Vec<u8>>))
        ensures
            r.0 == config.high_tick_rate,
            r.1 is None <==> self.network_status == NetworkStatus::Disconnected,
            r.1 matches Some(packet) ==> exists|options: Option<Seq<u8>>, records: Option<Seq<u8>>|
                packet@ == crate::clockwork::wire::header(
                    config.protocol_header@,
                    self.local.connection.id@,
                    self.local.tick.code(),
                ) + #[trigger] self.local.payload(options, records),
    {
        if self.network_status == NetworkStatus::Disconnected {
            return (config.high_tick_rate, None);
        }
        let packet = self.local.send(config, copied(&self.input_queue));
        (config.high_tick_rate, Some(packet))
    }

    /// The index of the next host in the roster.
    fn get_next_host(&self) -> (r: Option<usize>)
        ensures
            r is Some == candidate(
                self.connections@,
                self.used_host_migrations@,
                self.connections@.len() as int,
            ) is Some,
            r matches Some(k) ==> candidate(
                self.connections@,
                self.used_host_migrations@,
                self.connections@.len() as int,
            ) == Some(k as int) && k < self.connections@.len(),
    {
        let mut best: Option<usize> = None;
        let mut k: usize = 0;
        while k < self.connections.len()
            invariant
                k <= self.connections@.len(),
                best is Some == candidate(
                    self.connections@,
                    self.used_host_migrations@,
                    k as int,
                ) is Some,
                best matches Some(b) ==> candidate(
                    self.connections@,
                    self.used_host_migrations@,
                    k as int,
                ) == Some(b as int) && b < k,
            decreases self.connections@.len() - k,
        {
            let untried = !listed(&self.used_host_migrations, self.connections[k].id());
            best = match best {
                None => if untried {
                    Some(k)
                } else {
                    None
                },
                Some(b) => if untried && self.connections[k].order() < self.connections[b].order() {
                    Some(k)
                } else {
                    Some(b)
                },
            };
            k += 1;
        }
        best
    }

    /// Picks the next host after the host has timed out. Gives its address,
    /// or none where this client is to host, with the new host's and the
    /// client's identifiers; and nothing where no remote is left to try.
    pub fn migrate(&mut self) -> (r: Option<(Option<RemoteAddr>, HostID, ConnectionID)>)
        ensures
            final(self).state == old(self).state,
            (final(self)@, r) == old(self)@.migrated(),
            old(self).wf() ==> final(self).wf(),
    {
        match self.get_next_host() {
            Some(k) => {
                let next = self.connections[k];
                let host_id = HostID::new(next.id());
                // Spin up a new local server in case we're the next host
                if next.id() == self.local.connection().id() {
                    Some((None, host_id, self.local.connection().id()))
                } else {
                    // Mark that remote as used, so we don't try it again in
                    // case it times out too
                    self.used_host_migrations.push(next.id());
                    Some((Some(next.address()), host_id, self.local.connection().id()))
                }
            },
            None => None,
        }
    }

    /// The place of `id` in the roster.
    fn locate(&self, id: ConnectionID) -> (k: usize)
        ensures
            k == place(self.connections@, id@),
            k <= self.connections@.len(),
    {
        let mut k: usize = 0;
        while k < self.connections.len() && self.connections[k].id.raw() < id.raw()
            invariant
                k <= self.connections@.len(),
                forall|j: int| 0 <= j < k ==> self.connections@[j].id@ < id@,
            decreases self.connections@.len() - k,
        {
            k += 1;
        }
        proof {
            place_found(self.connections@, id@, k as int);
        }
        k
    }

    /// Takes the host that has answered. Gives the event for it.
    pub fn note_host(&mut self, config: &Config, id: ConnectionID) -> (event: Event)
        ensures
            final(self).state == old(self).state,
            (final(self)@, seq![event]) == old(self)@.connected_to(*config, id),
            old(self).wf() ==> final(self).wf(),
    {
        self.host_id = HostID::new(id);
        Event::HostConnect(config.remote_addr, self.host_id, self.local.connection().id())
    }

    /// Takes the hash of the options that the host has confirmed. Says
    /// whether the options differ from those that were applied last, and
    /// remembers them where they do.
    pub fn note_options(&mut self, hash: u64) -> (changed: bool)
        ensures
            final(self).state == old(self).state,
            changed == old(self)@.options_changed(hash),
            final(self)@ == (ClientModel {
                last_options_hash: if changed {
                    Some(hash)
                } else {
                    old(self).last_options_hash
                },
                ..old(self)@
            }),
            old(self).wf() ==> final(self).wf(),
    {
        let changed = match self.last_options_hash {
            Some(last_hash) => hash != last_hash,
            None => true,
        };
        if changed {
            self.last_options_hash = Some(hash);
        }
        changed
    }

    /// Takes the state's answer after it has applied new options: the
    /// client is ready where the state is.
    pub fn options_applied(&mut self, ready: bool)
        ensures
            final(self).state == old(self).state,
            final(self)@ == (ClientModel {
                local: if ready {
                    ClientRemote { tick: ClientTick::Ready, ..old(self).local }
                } else {
                    old(self).local
                },
                ..old(self)@
            }),
            old(self).wf() ==> final(self).wf(),
    {
        if ready {
            self.local.set_tick(ClientTick::Ready);
        }
    }

    /// Takes the roster that the host has announced, if any, and becomes
    /// connected. Gives an event for each connection that is new, and one
    /// for the host that is ready where the client was not connected.
    pub fn take_roster(&mut self, config: &Config, roster: Option<Vec<RemoteConnection>>) -> (events: Vec<Event>)
        requires
            old(self).wf(),
        ensures
            final(self).wf(),
            final(self).state == old(self).state,
            (final(self)@, events@) == old(self)@.with_roster(
                *config,
                match roster {
                    Some(announced) => Some(announced@),
                    None => None,
                },
            ),
    {
        let mut events: Vec<Event> = Vec::new();
        match roster {
            Some(announced) => {
                let ghost all = announced@;
                let ghost start = self@;
                for connection in it: announced
                    invariant
                        it.seq() == all,
                        self.wf(),
                        self.state == old(self).state,
                        (self.connections@, events@) == joined(
                            start.connections,
                            all,
                            it.index() as int,
                        ),
                        self@ == (ClientModel { connections: self.connections@, ..start }),
                {
                    let k = self.locate(connection.id());
                    proof {
                        sorted_upserted(self.connections@, connection);
                    }
                    if k < self.connections.len() && self.connections[k].id.raw()
                        == connection.id.raw() {
                        self.connections[k] = connection;
                    } else {
                        events.push(Event::RemoteJoined(connection.address(), connection.id()));
                        self.connections.insert(k, connection);
                    }
                }
            },
            None => {},
        }
        if self.network_status != NetworkStatus::Connected {
            self.used_host_migrations.clear();
            self.network_status = NetworkStatus::Connected;
            events.push(
                Event::HostReady(config.remote_addr, self.host_id, self.local.connection().id()),
            );
        }
        events
    }

    /// Takes the inputs of one sequence: the client's own are confirmed and
    /// leave its queue, and the connections of which the host has sent no
    /// input leave the roster. Gives an event for each that leaves.
    pub fn confirm_inputs(&mut self, inputs: &Vec<RemoteInput<I>>) -> (events: Vec<Event>)
        requires
            old(self).wf(),
        ensures
            final(self).wf(),
            final(self).state == old(self).state,
            (final(self)@, events@) == old(self)@.with_inputs(inputs@),
    {
        let ghost start = self@;
        let local_id = self.local.connection().id();
        let mut i: usize = 0;
        while i < inputs.len()
            invariant
                i <= inputs@.len(),
                local_id == start.local.connection.id,
                self.state == old(self).state,
                self.input_queue@ == confirmed(start.input_queue, local_id, inputs@, i as int),
                self@ == (ClientModel { input_queue: self.input_queue@, ..start }),
            decreases inputs@.len() - i,
        {
            // Remove confirmed inputs from the local input queue
            if inputs[i].id == local_id && !inputs[i].data.is_empty() {
                if inputs[i].data.len() <= self.input_queue.len() {
                    let rest = self.input_queue.split_off(inputs[i].data.len());
                    self.input_queue = rest;
                } else {
                    self.input_queue.clear();
                }
            }
            assert(self.input_queue@ =~= confirmed(start.input_queue, local_id, inputs@, i + 1));
            i += 1;
        }
        let ghost left = self.input_queue@;
        // Check for any connections which are no longer being send by the host
        let mut events: Vec<Event> = Vec::new();
        let mut k: usize = 0;
        proof {
            assert(self.connections@.skip(0) =~= self.connections@);
            assert(self.connections@.take(0) + staying(self.connections@, inputs@) =~= staying(
                self.connections@,
                inputs@,
            ));
            assert(Seq::<Event>::empty() + leaving(self.connections@, inputs@) =~= leaving(
                self.connections@,
                inputs@,
            ));
        }
        while k < self.connections.len()
            invariant
                k <= self.connections@.len(),
                self.wf(),
                self.state == old(self).state,
                staying(start.connections, inputs@) == self.connections@.take(k as int) + staying(
                    self.connections@.skip(k as int),
                    inputs@,
                ),
                leaving(start.connections, inputs@) == events@ + leaving(
                    self.connections@.skip(k as int),
                    inputs@,
                ),
                self@ == (ClientModel {
                    input_queue: left,
                    connections: self.connections@,
                    ..start
                }),
            decreases self.connections@.len() - k,
        {
            let ghost before = self.connections@;
            let ghost told = events@;
            assert(before.skip(k as int).skip(1) =~= before.skip(k + 1));
            assert(before.skip(k as int)[0] == before[k as int]);
            let connection = self.connections[k];
            if !heard_from(inputs, connection.id()) {
                events.push(Event::RemoteLeft(connection.address(), connection.id()));
                proof {
                    sorted_without(before, k as int);
                }
                let _ = self.connections.remove(k);
                assert(self.connections@.take(k as int) =~= before.take(k as int));
                assert(self.connections@.skip(k as int) =~= before.skip(k + 1));
                assert(told + (seq![Event::RemoteLeft(connection.address, connection.id)] + leaving(
                    before.skip(k + 1),
                    inputs@,
                )) =~= events@ + leaving(before.skip(k + 1), inputs@));
            } else {
                assert(before.take(k + 1) =~= before.take(k as int).push(before[k as int]));
                assert(before.take(k as int) + (seq![before[k as int]] + staying(
                    before.skip(k + 1),
                    inputs@,
                )) =~= before.take(k + 1) + staying(before.skip(k + 1), inputs@));
                k += 1;
            }
        }
        proof {
            assert(self.connections@.take(k as int) =~= self.connections@);
            assert(self.connections@.skip(k as int) =~= Seq::<RemoteConnection>::empty());
            assert(self.connections@ + Seq::<RemoteConnection>::empty() =~= self.connections@);
            assert(events@ + Seq::<Event>::empty() =~= events@);
        }
        events
    }

    /// Takes what a packet of the host has told, where the options of a
    /// signal with options have the hash `hash`. Gives the events for the
    /// application and the calls to make on its state, in their order. The
    /// answer of the state to new options is taken by `options_applied`.
    pub fn plan(&mut self, config: &Config, event: ClientEvent<O, I>, hash: u64) -> (r: (Vec<Event>, Vec<StateCall<O, I>>))
        requires
            old(self).wf(),
        ensures
            final(self).wf(),
            final(self).state == old(self).state,
            (final(self)@, r.0@) == old(self)@.after(*config, event@, Answer { hash, ready: false }),
            planned(r.1@) == old(self)@.calls(event@, hash),
    {
        let mut calls: Vec<StateCall<O, I>> = Vec::new();
        match event {
            ClientEvent::Connected(id) => {
                let mut events: Vec<Event> = Vec::new();
                events.push(self.note_host(config, id));
                assert(planned(calls@) =~= Seq::<PlannedCall<O, I>>::empty());
                (events, calls)
            },
            ClientEvent::Options(options) => {
                let mut events: Vec<Event> = Vec::new();
                // Detect options changes
                if self.note_options(hash) {
                    let mut pairs: Vec<(ConnectionID, O)> = Vec::with_capacity(options.len());
                    let ghost all = options@;
                    for option in it: options
                        invariant
                            it.seq() == all,
                            pairs@ == option_pairs(all).take(it.index() as int),
                    {
                        pairs.push((option.id, option.data));
                        assert(pairs@ =~= option_pairs(all).take(it.index() + 1));
                    }
                    assert(option_pairs(all).take(all.len() as int) =~= option_pairs(all));
                    calls.push(StateCall::Options(pairs));
                    events.push(Event::RemoteOptions);
                    assert(planned(calls@) =~= seq![PlannedCall::Options(option_pairs(all))]);
                } else {
                    assert(planned(calls@) =~= Seq::<PlannedCall<O, I>>::empty());
                }
                (events, calls)
            },
            ClientEvent::Ready(roster) => {
                if roster.is_some() && self.network_status == NetworkStatus::Connecting {
                    calls.push(StateCall::Init(self.connections()));
                    assert(planned(calls@) =~= seq![
                        PlannedCall::Init(addresses(self.connections@)),
                    ]);
                } else {
                    assert(planned(calls@) =~= Seq::<PlannedCall<O, I>>::empty());
                }
                let events = self.take_roster(config, roster);
                (events, calls)
            },
            ClientEvent::Inputs(ticks, inputs) => {
                // Apply inputs
                let mut i: usize = 0;
                assert(planned(calls@) =~= input_calls::<O, I>(inputs@, 0));
                while i < inputs.len()
                    invariant
                        i <= inputs@.len(),
                        planned(calls@) == input_calls::<O, I>(inputs@, i as int),
                    decreases inputs@.len() - i,
                {
                    let sender = inputs[i].id;
                    let ghost before = planned(calls@);
                    let mut j: usize = 0;
                    assert(planned(calls@) =~= before + calls_of_input::<O, I>(inputs@[i as int]).take(
                        0,
                    ));
                    while j < inputs[i].data.len()
                        invariant
                            i < inputs@.len(),
                            j <= inputs@[i as int].data@.len(),
                            sender == inputs@[i as int].id,
                            planned(calls@) == before + calls_of_input::<O, I>(
                                inputs@[i as int],
                            ).take(j as int),
                        decreases inputs@[i as int].data@.len() - j,
                    {
                        let ghost prior = planned(calls@);
                        let item = inputs[i].data[j];
                        calls.push(StateCall::Input(sender, item));
                        assert(planned(calls@) =~= prior.push(PlannedCall::Input(sender, item)));
                        assert(calls_of_input::<O, I>(inputs@[i as int]).take(j + 1)
                            =~= calls_of_input::<O, I>(inputs@[i as int]).take(j as int).push(
                            PlannedCall::Input(sender, item),
                        ));
                        assert(planned(calls@) =~= before + calls_of_input::<O, I>(
                            inputs@[i as int],
                        ).take(j + 1));
                        j += 1;
                    }
                    assert(calls_of_input::<O, I>(inputs@[i as int]).take(j as int)
                        =~= calls_of_input::<O, I>(inputs@[i as int]));
                    i += 1;
                }
                let ghost applied = planned(calls@);
                let events = self.confirm_inputs(&inputs);
                // Tick state
                calls.push(StateCall::Ticks(ticks, self.connections()));
                assert(planned(calls@) =~= applied + seq![
                    PlannedCall::Ticks(ticks, addresses(self.connections@)),
                ]);
                (events, calls)
            },
        }
    }

    /// Asks the application for the content hash of the options of each
    /// remote, one after the other, and gives the hash over what it answers.
    fn hash_options(options: &Vec<RemoteOptions<O>>) -> (hash: u64)
        ensures
            exists|hashes: Seq<u64>|
                options_hash_to(options@, hashes) && hash == #[trigger] options_digest(hashes),
    {
        let mut hashes: Vec<u64> = Vec::with_capacity(options.len());
        let mut k: usize = 0;
        while k < options.len()
            invariant
                k <= options@.len(),
                hashes@.len() == k,
                forall|j: int|
                    0 <= j < k ==> #[trigger] call_ensures(
                        O::content_hash,
                        (&options@[j].data,),
                        hashes@[j],
                    ),
            decreases options@.len() - k,
        {
            let hash = options[k].data.content_hash();
            hashes.push(hash);
            k += 1;
        }
        proof {
            assert(options_hash_to(options@, hashes@));
        }
        combine_hashes(&hashes)
    }

    /// Makes the calls on the application's state, in their order. Gives
    /// what the state has answered when it was asked whether it is ready,
    /// which it is after each call with options.
    fn run<R>(state: &mut S, host_id: HostID, calls: Vec<StateCall<O, I>>, refs: &mut R) -> (asked: Option<bool>) where
        S: State<O, I, R>,

        ensures
            asked is Some <==> exists|k: int| 0 <= k < calls@.len() && calls@[k] is Options,
    {
        let mut asked: Option<bool> = None;
        let ghost all = calls@;
        for call in it: calls
            invariant
                it.seq() == all,
                asked is Some <==> exists|k: int| 0 <= k < it.index() && all[k] is Options,
        {
            match call {
                StateCall::Init(roster) => {
                    state.init(host_id, roster.as_slice(), refs);
                },
                StateCall::Options(options) => {
                    state.apply_options(host_id, options.as_slice());
                    asked = Some(state.is_ready());
                    assert(all[it.index() as int] is Options);
                },
                StateCall::Input(sender, input) => {
                    state.apply_input(host_id, sender, input);
                },
                StateCall::Ticks(ticks, roster) => {
                    let mut done: u8 = 0;
                    while done < ticks
                        invariant
                            done <= ticks,
                        decreases ticks - done,
                    {
                        state.tick(host_id, roster.as_slice());
                        done += 1;
                    }
                },
            }
        }
        asked
    }

    /// Takes what the packets of the host have told, in their order. Gives
    /// the events and what the state has answered to each signal.
    fn apply_network_events<R>(&mut self, config: &Config, network_events: Vec<ClientEvent<O, I>>, refs: &mut R) -> (r: (Result<Vec<Event>, Error>, Ghost<Seq<Answer>>)) where
        S: State<O, I, R>,

        requires
            old(self).wf(),
        ensures
            final(self).wf(),
            r.1@.len() == network_events@.len(),
            r.0 matches Ok(events) && (final(self)@, events@) == old(self)@.applied(
                *config,
                signals(network_events@),
                r.1@,
                network_events@.len() as int,
            ),
    {
        let ghost start = self@;
        let ghost all = network_events@;
        let ghost mut answers: Seq<Answer> = Seq::empty();
        let mut events: Vec<Event> = Vec::new();
        for event in it: network_events
            invariant
                it.seq() == all,
                self.wf(),
                answers.len() == it.index(),
                (self@, events@) == start.applied(
                    *config,
                    signals(all),
                    answers,
                    it.index() as int,
                ),
        {
            let ghost earlier = answers;
            let ghost before = self@;
            assert(signals(all)[it.index() as int] == event@);
            let hash = match &event {
                ClientEvent::Options(options) => Self::hash_options(options),
                _ => 0,
            };
            let (mut more, calls) = self.plan(config, event, hash);
            let ghost signal = signals(all)[it.index() as int];
            let ghost witness = calls@;
            proof {
                before.options_are_asked_once(signal, hash);
                assert forall|k: int| 0 <= k < witness.len() implies (witness[k] is Options) == (
                planned(witness)[k] is Options) by {
                    assert(planned(witness)[k] == witness[k]@);
                }
            }
            let asked = Self::run::<R>(&mut self.state, self.host_id, calls, refs);
            let mut ready = false;
            match asked {
                Some(answered) => {
                    self.options_applied(answered);
                    ready = answered;
                },
                None => {},
            }
            proof {
                if signal is Options && before.options_changed(hash) {
                    assert(planned(witness)[0] is Options);
                    assert(witness[0] is Options);
                } else {
                    assert(asked is None) by {
                        if asked is Some {
                            let k = choose|k: int| 0 <= k < witness.len() && witness[k] is Options;
                            assert(planned(witness)[k] is Options);
                        }
                    }
                }
            }
            events.append(&mut more);
            proof {
                answers = earlier.push(Answer { hash, ready });
                same_answers(start, *config, signals(all), earlier, answers, it.index() as int);
            }
        }
        (Ok(events), Ghost(answers))
    }

    /// Takes the packets that arrived until `now`, a time in milliseconds,
    /// and gives the events that they stand for. Where no packet of the host
    /// was accepted for longer than the timeout threshold, the client is
    /// disconnected and the host has timed out.
    ///
    /// The payloads are read with the codecs of the application, and the
    /// application's state is asked whether it is ready: the client is after
    /// the call what it is for some reading of the packets and some answers
    /// of the state.
    pub fn receive<R>(&mut self, config: &Config, now: u64, inbox: Vec<Datagram>, refs: &mut R) -> (r: Result<Vec<Event>, Error>) where
        S: State<O, I, R>,

        requires
            old(self).wf(),
        ensures
            final(self).wf(),
            old(self)@.lost(*config, now) ==> r == Err::<Vec<Event>, Error>(Error::RemoteTimeout)
                && final(self)@ == old(self)@.disconnected() && final(self).state == old(
                self,
            ).state && *final(refs) == *old(refs),
            !old(self)@.lost(*config, now) ==> r is Ok && exists|
                contents: Seq<HostContent<O, I>>,
                answers: Seq<Answer>,
            |
                old(self)@.reads(*config, inbox@, contents, now) && #[trigger] old(self)@.received(
                    *config,
                    inbox@,
                    contents,
                    answers,
                    now,
                ) == (final(self)@, r->Ok_0@),
    {
        if self.local.timed_out(config, now) {
            self.network_status = NetworkStatus::Disconnected;
            return Err(Error::RemoteTimeout);
        }
        let ghost start = self@;
        let ghost all = inbox@;
        let ghost mut contents: Seq<HostContent<O, I>> = Seq::empty();
        let mut network_events: Vec<ClientEvent<O, I>> = Vec::new();
        for datagram in it: inbox
            invariant
                it.seq() == all,
                self.wf(),
                contents.len() == it.index(),
                read_in_turn::<O, I>(start.local, *config, all, contents, it.index() as int, now),
                (self.local, signals(network_events@)) == collected::<O, I>(
                    start.local,
                    *config,
                    all,
                    contents,
                    it.index() as int,
                    now,
                ),
                self@ == (ClientModel { local: self.local, ..start }),
        {
            let (addr, packet) = datagram;
            let ghost found = network_events@;
            let ghost earlier = contents;
            let ghost mut content = HostContent::Bare;
            if addr.same(&config.remote_addr) {
                match connection_id_from_packet(config, packet.as_slice()) {
                    Some(id) => {
                        let host = ServerTick::from_u8(packet[8]);
                        let message = self.local.open::<I>(&packet);
                        proof {
                            content = message@;
                        }
                        match self.local.take::<I>(id, host, message, now) {
                            Some(mut received) => {
                                let ghost signal = received@[0]@;
                                network_events.append(&mut received);
                                assert(signals(network_events@) =~= signals(found).push(signal));
                            },
                            None => {},
                        }
                    },
                    None => {},
                }
            }
            proof {
                contents = earlier.push(content);
                same_prefix::<O, I>(
                    start.local,
                    *config,
                    all,
                    earlier,
                    contents,
                    it.index() as int,
                    now,
                );
            }
        }
        let ghost found = signals(network_events@);
        let (r, answers) = self.apply_network_events::<R>(config, network_events, refs);
        proof {
            assert(found.len() == network_events@.len());
            assert(start.received(*config, all, contents, answers@, now) == (self@, r->Ok_0@));
        }
        r
    }
}

} // verus!
