//! What holds of the protocol whatever the packets and the participants:
//! statements over the transitions of both sides, the change of host and
//! the pace of the server, each proved from the definitions that the
//! functions of the library are held to.

use vstd::prelude::*;
use crate::clockwork::client::{candidate, ClientModel};
use crate::clockwork::client_remote::{client_accepts, ClientRemote, ClientSignal, HostContent};
use crate::clockwork::config::Config;
use crate::clockwork::connection::RemoteConnection;
use crate::clockwork::ids::ConnectionID;
use crate::clockwork::connection::RemoteAddr;
use crate::clockwork::server::{absorbed_one, lowest_tick, ServerModel};
use crate::clockwork::server_remote::{server_accepts, ClientMessage, ServerRemote};
use crate::clockwork::tick::{ClientTick, ServerTick};
use crate::clockwork::traits::{Input, Options};

verus! {

/// A packet that is for another client, or that carries a tick of the host
/// that the client has no answer to in its own tick, is dropped: the client
/// stays as it is, the time of its last accepted packet included, and is
/// told nothing.
pub proof fn client_drops_what_it_cannot_answer<O: Options, I: Input>(
    remote: ClientRemote<O>,
    id: ConnectionID,
    host: ServerTick,
    content: HostContent<O, I>,
    now: u64,
)
    requires
        id != remote.connection.id || !client_accepts(remote.tick, host),
    ensures
        remote.taken::<I>(id, host, content, now) == (remote, None::<ClientSignal<O, I>>),
{
}

/// The tick of the client after a packet that it has an answer to, by its
/// own tick, the tick of the host, and whether the packet holds what the
/// step needs.
pub open spec fn client_tick_after<O, I>(own: ClientTick, host: ServerTick, content: HostContent<O, I>) -> ClientTick {
    match (own, host) {
        (ClientTick::WaitForServer, ServerTick::Migrate) => if content is Host {
            ClientTick::Ready
        } else {
            own
        },
        (ClientTick::WaitForServer, ServerTick::WaitForClients) => if content is Host {
            ClientTick::SendOptions
        } else {
            own
        },
        (ClientTick::Ready, ServerTick::Initialize) => if content is Roster {
            ClientTick::SyncConfirm
        } else {
            own
        },
        (ClientTick::Ready, ServerTick::InitializeMigrate) => ClientTick::SyncConfirm,
        (ClientTick::SyncConfirm, ServerTick::AwaitInput) => ClientTick::SendInput,
        _ => own,
    }
}

/// A packet that the client has an answer to moves it as the table of its
/// ticks says, and to no other tick; it counts as accepted, and leaves the
/// connection and the staged options alone. The sequence starts over when
/// the host is found, moves on by one when the inputs of a round are
/// taken, and stays as it is otherwise.
pub proof fn client_follows_its_table<O: Options, I: Input>(
    remote: ClientRemote<O>,
    host: ServerTick,
    content: HostContent<O, I>,
    now: u64,
)
    requires
        client_accepts(remote.tick, host),
    ensures
        ({
            let (after, signal) = remote.taken::<I>(remote.connection.id, host, content, now);
            &&& after.tick == client_tick_after(remote.tick, host, content)
            &&& after.last_receive_time == now
            &&& after.connection == remote.connection
            &&& after.options == remote.options
            &&& after.sequence == (if signal is Some && signal->0 is Connected {
                0
            } else if signal is Some && signal->0 is Inputs {
                crate::clockwork::client_remote::sequence_after(remote.sequence)
            } else {
                remote.sequence
            })
        }),
{
}

/// The client takes the inputs of a round only where the host announces the
/// sequence after the client's own and every declared record was decoded
/// and belongs to the client's sequence.
pub proof fn client_takes_complete_rounds_only<O: Options, I: Input>(
    remote: ClientRemote<O>,
    host: ServerTick,
    content: HostContent<O, I>,
    now: u64,
)
    ensures
        ({
            let (after, signal) = remote.taken::<I>(remote.connection.id, host, content, now);
            signal is Some && signal->0 is Inputs ==> {
                &&& remote.tick == ClientTick::SendInput
                &&& host == ServerTick::AwaitInput
                &&& content matches HostContent::Inputs(next, ticks, declared, inputs)
                &&& next == crate::clockwork::client_remote::sequence_after(remote.sequence)
                &&& declared > 0
                &&& signal->0 matches ClientSignal::Inputs(run, taken)
                &&& run == ticks
                &&& taken.len() == declared
                &&& forall|k: int| 0 <= k < taken.len() ==> (#[trigger] taken[k]).sequence
                    == remote.sequence
            }
        }),
{
    let (after, signal) = remote.taken::<I>(remote.connection.id, host, content, now);
    if signal is Some && signal->0 is Inputs {
        let inputs = content->Inputs_3;
        of_sequence_holds(inputs, remote.sequence, inputs.len() as int);
    }
}

/// All inputs that are picked for a sequence belong to it.
proof fn of_sequence_holds<I>(inputs: Seq<crate::clockwork::input::RemoteInput<I>>, sequence: u8, upto: int)
    requires
        0 <= upto <= inputs.len(),
    ensures
        forall|k: int|
            0 <= k < crate::clockwork::client_remote::of_sequence(inputs, sequence, upto).len()
                ==> (#[trigger] crate::clockwork::client_remote::of_sequence(
                inputs,
                sequence,
                upto,
            )[k]).sequence == sequence,
    decreases upto,
{
    if upto > 0 {
        of_sequence_holds(inputs, sequence, upto - 1);
        let before = crate::clockwork::client_remote::of_sequence(inputs, sequence, upto - 1);
        let picked = crate::clockwork::client_remote::of_sequence(inputs, sequence, upto);
        assert forall|k: int| 0 <= k < picked.len() implies (#[trigger] picked[k]).sequence
            == sequence by {
            if k < before.len() {
                assert(picked[k] == before[k]);
            }
        }
    }
}

/// A packet that is of another client, or that carries a tick of the client
/// that the server has no answer to in the remote's tick, is dropped: the
/// remote stays as it is, and the packet does not count as accepted.
pub proof fn server_drops_what_it_cannot_answer<O: Options, I: Input>(
    remote: ServerRemote<O, I>,
    sequence: u8,
    id: ConnectionID,
    client: ClientTick,
    message: ClientMessage<O, I>,
    now: u64,
)
    requires
        id != remote.connection.id || !server_accepts(remote.tick, client),
    ensures
        remote.taken(sequence, id, client, message, now) == (remote, false),
{
}

/// The tick of a remote after a packet that the server has an answer to, by
/// the remote's tick, the tick of the client, and whether the packet holds
/// options.
pub open spec fn server_tick_after<O, I>(own: ServerTick, client: ClientTick, message: ClientMessage<O, I>) -> ServerTick {
    match (own, client) {
        (ServerTick::WaitForClients, ClientTick::SendOptions) => ServerTick::AwaitOptions,
        (ServerTick::AwaitOptions, ClientTick::SendOptions) => if message is Options {
            ServerTick::ConfirmOptions
        } else {
            own
        },
        (ServerTick::ConfirmOptions, ClientTick::Ready) => ServerTick::Initialize,
        (ServerTick::Initialize, ClientTick::Ready) => ServerTick::Initialize,
        (ServerTick::Migrate, ClientTick::Ready) => ServerTick::InitializeMigrate,
        (ServerTick::Initialize, ClientTick::SyncConfirm) => ServerTick::AwaitInput,
        (ServerTick::InitializeMigrate, ClientTick::SyncConfirm) => ServerTick::AwaitInput,
        _ => own,
    }
}

/// A packet that the server has an answer to moves the remote as the table
/// of its ticks says, and to no other tick; it counts as accepted and
/// leaves the connection alone.
pub proof fn server_follows_its_table<O: Options, I: Input>(
    remote: ServerRemote<O, I>,
    sequence: u8,
    client: ClientTick,
    message: ClientMessage<O, I>,
    now: u64,
)
    requires
        server_accepts(remote.tick, client),
    ensures
        ({
            let (after, accepted) = remote.taken(
                sequence,
                remote.connection.id,
                client,
                message,
                now,
            );
            &&& accepted
            &&& after.tick == server_tick_after(remote.tick, client, message)
            &&& after.last_receive_time == now
            &&& after.connection == remote.connection
            &&& after.was_disconnected == remote.was_disconnected
        }),
{
}

/// The sequence of a remote moves on only with an input whose sequence is
/// both the one that the session waits for and the remote's own; it then
/// moves on by one, and the input is stored. Besides, the sequence starts
/// over when the client reports that it is ready. No other packet touches
/// the sequence or the stored input.
pub proof fn sequence_moves_with_the_expected_input_only<O: Options, I: Input>(
    remote: ServerRemote<O, I>,
    sequence: u8,
    id: ConnectionID,
    client: ClientTick,
    message: ClientMessage<O, I>,
    now: u64,
)
    ensures
        ({
            let after = remote.taken(sequence, id, client, message, now).0;
            let expected = id == remote.connection.id && remote.tick == ServerTick::AwaitInput
                && client == ClientTick::SendInput && (message matches ClientMessage::Input(input)
                && input.sequence == sequence && input.sequence == remote.sequence);
            let restarted = id == remote.connection.id && client == ClientTick::Ready && (
            remote.tick == ServerTick::ConfirmOptions || remote.tick == ServerTick::Initialize
                || remote.tick == ServerTick::Migrate);
            &&& expected ==> after.sequence == crate::clockwork::client_remote::sequence_after(
                remote.sequence,
            ) && after.input == Some(message->Input_0)
            &&& restarted ==> after.sequence == 0 && after.input == remote.input
            &&& !expected && !restarted ==> after.sequence == remote.sequence && after.input
                == remote.input
        }),
{
}

/// A packet that is shorter than a header, or that does not start with the
/// protocol magic, is dropped by the server before it reaches a remote:
/// whatever it holds, every remote stays as it is, and no remote joins.
pub proof fn server_drops_foreign_packets<O: Options, I: Input>(
    remotes: Seq<ServerRemote<O, I>>,
    started: bool,
    sequence: u8,
    config: Config,
    addr: RemoteAddr,
    packet: Seq<u8>,
    message: ClientMessage<O, I>,
    now: u64,
)
    requires
        !crate::clockwork::wire::well_framed(config.protocol_header@, packet),
    ensures
        absorbed_one(remotes, started, sequence, config, addr, packet, message, now) == (
            remotes,
            false,
        ),
{
}

/// A packet that is shorter than a header, that does not start with the
/// protocol magic, or that does not come from the address of the host, is
/// dropped by the client before it reaches its remote: whatever it holds,
/// the remote stays as it is and the client is told nothing.
pub proof fn client_drops_foreign_packets<O: Options, I: Input>(
    local: ClientRemote<O>,
    config: Config,
    inbox: Seq<crate::clockwork::server::Datagram>,
    contents: Seq<HostContent<O, I>>,
    upto: int,
    now: u64,
)
    requires
        0 < upto <= inbox.len(),
        inbox[upto - 1].0 != config.remote_addr || !crate::clockwork::wire::well_framed(
            config.protocol_header@,
            inbox[upto - 1].1@,
        ),
    ensures
        crate::clockwork::client::collected::<O, I>(local, config, inbox, contents, upto, now)
            == crate::clockwork::client::collected::<O, I>(
            local,
            config,
            inbox,
            contents,
            upto - 1,
            now,
        ),
{
}

/// Options with the hash of those that were applied last are not applied
/// again: of two confirmations with one hash in a row, whatever the state
/// answers, the second changes nothing and gives no event, and the first
/// gives one event at most.
pub proof fn same_options_are_applied_once<O: Options, I: Input>(
    client: ClientModel<O, I>,
    hash: u64,
    first_ready: bool,
    second_ready: bool,
)
    ensures
        ({
            let (once, first) = client.with_options(hash, first_ready);
            let (twice, second) = once.with_options(hash, second_ready);
            &&& first.len() <= 1
            &&& second.len() == 0
            &&& twice == once
        }),
{
}

/// The next host is, of the connections that were not tried yet, the first
/// in the roster with the lowest migration order; there is none exactly
/// when every connection was tried.
pub proof fn next_host_has_the_lowest_order_left(
    connections: Seq<RemoteConnection>,
    used: Seq<ConnectionID>,
    upto: int,
)
    requires
        0 <= upto <= connections.len(),
    ensures
        match candidate(connections, used, upto) {
            Some(best) => {
                &&& 0 <= best < upto
                &&& !used.contains(connections[best].id)
                &&& forall|k: int|
                    0 <= k < upto && !used.contains(#[trigger] connections[k].id)
                        ==> connections[best].order <= connections[k].order
                &&& forall|k: int|
                    0 <= k < best && !used.contains(#[trigger] connections[k].id)
                        ==> connections[best].order < connections[k].order
            },
            None => forall|k: int| 0 <= k < upto ==> used.contains(#[trigger] connections[k].id),
        },
    decreases upto,
{
    if upto > 0 {
        next_host_has_the_lowest_order_left(connections, used, upto - 1);
    }
}

/// The connection that hosts the server has the highest migration order
/// there is, so it is picked as the next host only where every connection
/// that is left to try has that order too.
pub proof fn host_is_picked_last(connections: Seq<RemoteConnection>, used: Seq<ConnectionID>)
    ensures
        candidate(connections, used, connections.len() as int) matches Some(best) ==> (
        connections[best].order == crate::clockwork::server::HOST_ORDER ==> forall|k: int|
            0 <= k < connections.len() && !used.contains(#[trigger] connections[k].id)
                ==> connections[k].order == crate::clockwork::server::HOST_ORDER),
{
    next_host_has_the_lowest_order_left(connections, used, connections.len() as int);
}

/// A client that has picked another remote as its next host counts that
/// remote as tried, and does not pick it again while the migration is under
/// way: where the host that it has picked is lost too, the next host is
/// another one.
pub proof fn tried_hosts_are_not_tried_again<O: Options, I: Input>(client: ClientModel<O, I>)
    ensures
        ({
            let (after, picked) = client.migrated();
            picked matches Some((Some(address), host, local)) ==> {
                &&& after.used_host_migrations.contains(ConnectionID { id: host.id })
                &&& after.migrated().1 matches Some((_, next, _)) ==> next != host
            }
        }),
{
    let (after, picked) = client.migrated();
    match picked {
        Some((Some(_), host, _)) => {
            let used = client.used_host_migrations;
            assert(after.used_host_migrations[used.len() as int] == ConnectionID { id: host.id });
            next_host_has_the_lowest_order_left(
                after.connections,
                after.used_host_migrations,
                after.connections.len() as int,
            );
        },
        _ => {},
    }
}

/// The tick that the remotes share is the tick of one of them, and no
/// remote is behind it: the slowest remote decides what the server tells
/// all of them.
pub proof fn shared_tick_is_the_lowest<O, I>(remotes: Seq<ServerRemote<O, I>>, upto: int)
    requires
        0 <= upto <= remotes.len(),
    ensures
        match lowest_tick(remotes, upto) {
            Some(lowest) => {
                &&& exists|k: int| 0 <= k < upto && (#[trigger] remotes[k]).tick == lowest
                &&& forall|k: int|
                    0 <= k < upto ==> lowest.rank() <= (#[trigger] remotes[k]).tick.rank()
            },
            None => upto == 0,
        },
    decreases upto,
{
    if upto > 0 {
        shared_tick_is_the_lowest(remotes, upto - 1);
        match lowest_tick(remotes, upto - 1) {
            Some(before) => {
                let k = choose|k: int| 0 <= k < upto - 1 && (#[trigger] remotes[k]).tick == before;
                if remotes[upto - 1].tick.rank() < before.rank() {
                    assert(remotes[upto - 1].tick == lowest_tick(remotes, upto)->0);
                } else {
                    assert(remotes[k].tick == lowest_tick(remotes, upto)->0);
                }
            },
            None => {
                assert(remotes[upto - 1].tick == lowest_tick(remotes, upto)->0);
            },
        }
    }
}

/// However late the session is, one sequence makes the clients run between
/// one and seventeen simulation ticks, and what is left of the backlog is
/// what those ticks have not made up for.
pub proof fn catch_up_is_bounded<O: Options, I: Input>(server: ServerModel<O, I>, config: Config, now: u64)
    requires
        1 <= config.high_tick_rate <= 1000,
        server.advances(),
    ensures
        1 <= server.paced(config, now).ticks_per_sequence <= 17,
        server.paced(config, now).tick_buffer + (server.paced(config, now).ticks_per_sequence - 1)
            * ServerModel::<O, I>::interval(config) == server.backlog(config, now),
        server.paced(config, now).sequence == crate::clockwork::client_remote::sequence_after(
            server.sequence,
        ),
{
    let interval = ServerModel::<O, I>::interval(config);
    assert(1 <= interval <= 1000) by (nonlinear_arith)
        requires
            interval == 1000int / (config.high_tick_rate as int),
            1 <= config.high_tick_rate <= 1000,
    ;
    let backlog = server.backlog(config, now);
    let extra = server.catch_up(config, now);
    assert(0 <= backlog <= u32::MAX);
    assert(0 <= backlog / interval) by (nonlinear_arith)
        requires
            0 <= backlog,
            1 <= interval,
    ;
    assert(0 <= extra * interval <= backlog) by (nonlinear_arith)
        requires
            0 <= extra <= backlog / interval,
            1 <= interval,
            0 <= backlog,
    ;
}

} // verus!
