use stratland::clockwork::server_remote::ClientMessage;
use stratland::clockwork::{
    base_packet, create_server, ClientTick, ClockworkServer, Config, ConnectionID, HostID, Input,
    Migration, Options, RemoteAddr, RemoteConnection, RemoteInput, RemoteOptions, ServerRemote,
    ServerTick,
};

#[derive(Debug, Clone, PartialEq)]
struct Rules(u8);

impl Options for Rules {
    fn encode(options: &RemoteOptions<Self>) -> Option<Vec<u8>> {
        bincode::serialize(&(options.id.raw(), options.data.0), bincode::Infinite).ok()
    }

    fn decode(bytes: &[u8]) -> Option<RemoteOptions<Self>> {
        let (id, rules) = bincode::deserialize::<(u32, u8)>(bytes).ok()?;
        Some(RemoteOptions::new(ConnectionID::new(id), Rules(rules)))
    }

    fn content_hash(&self) -> u64 {
        self.0 as u64
    }
}

#[derive(Debug, Clone, Copy, PartialEq)]
struct Buttons(u8);

impl Input for Buttons {
    fn encode(input: &RemoteInput<Self>) -> Option<Vec<u8>> {
        let data: Vec<u8> = input.data.iter().map(|b| b.0).collect();
        bincode::serialize(&(input.id.raw(), data, input.sequence), bincode::Infinite).ok()
    }

    fn decode(bytes: &[u8]) -> Option<RemoteInput<Self>> {
        let (id, data, sequence) = bincode::deserialize::<(u32, Vec<u8>, u8)>(bytes).ok()?;
        Some(RemoteInput::new(
            ConnectionID::new(id),
            sequence,
            data.into_iter().map(Buttons).collect(),
        ))
    }
}

type Server = ClockworkServer<Rules, Buttons>;

fn addr(last: u8) -> RemoteAddr {
    RemoteAddr::new([10, 0, 0, last], 5000)
}

fn hello(id: u32, tick: ClientTick) -> Vec<u8> {
    base_packet(ConnectionID::new(id), &Config::default(), tick.to_u8())
}

fn remote(id: u32, tick: ServerTick, sequence: u8, seen: u64) -> ServerRemote<Rules, Buttons> {
    let mut remote = ServerRemote::new(ConnectionID::new(id), addr(id as u8), None, Some(tick), false, seen);
    remote.sequence = sequence;
    remote
}

fn ids(server: &Server) -> Vec<u32> {
    server.remotes.iter().map(|r| r.connection().id().raw()).collect()
}

fn orders(server: &Server) -> Vec<u8> {
    server.remotes.iter().map(|r| r.connection().order()).collect()
}

#[test]
fn new_server_is_empty() {
    let server = Server::new(&Config::default(), ConnectionID::new(7), false, 12);
    assert!(!server.started);
    assert_eq!(server.sequence, 0);
    assert!(server.remotes.is_empty());
    assert_eq!(server.host_id, ConnectionID::new(7));
    assert_eq!(server.last_tick_time, 12);
    assert_eq!(server.tick_buffer, 0);
    assert_eq!(server.ticks_per_sequence, 1);
}

#[test]
fn empty_server_sends_nothing_at_the_low_rate() {
    let config = Config::default();
    let mut server = Server::new(&config, ConnectionID::new(7), false, 0);
    let (rate, outbox) = server.tick(&config, 10, vec![]);
    assert_eq!(rate, 10);
    assert!(outbox.is_empty());
}

#[test]
fn new_clients_are_admitted_in_identifier_order() {
    let config = Config::default();
    let mut server = Server::new(&config, ConnectionID::new(7), false, 0);
    let inbox = vec![
        (addr(9), hello(9, ClientTick::WaitForServer)),
        (addr(3), hello(3, ClientTick::WaitForServer)),
        (addr(7), hello(7, ClientTick::SendOptions)),
    ];
    let (rate, outbox) = server.tick(&config, 10, inbox);
    assert_eq!(rate, 10);
    assert_eq!(ids(&server), vec![3, 7, 9]);
    // Each gets its index as order, the hosting connection goes last.
    assert_eq!(orders(&server), vec![0, 255, 2]);
    assert_eq!(server.remotes[1].tick(), ServerTick::AwaitOptions);
    assert_eq!(outbox.len(), 3);
    assert_eq!(outbox[0].0, addr(3));
    assert_eq!(outbox[0].1, vec![1, 2, 3, 4, 0, 0, 0, 3, 0, 7, 0, 0, 0]);
    assert_eq!(outbox[1].0, addr(7));
    assert_eq!(outbox[1].1, vec![1, 2, 3, 4, 0, 0, 0, 7, 1, 7, 0, 0, 0]);
    assert_eq!(outbox[2].0, addr(9));
}

#[test]
fn packets_with_foreign_magic_change_nothing() {
    let config = Config::default();
    let mut server = Server::new(&config, ConnectionID::new(7), false, 0);
    server.tick(&config, 10, vec![(addr(3), hello(3, ClientTick::WaitForServer))]);
    let mut forged = hello(3, ClientTick::SendOptions);
    forged[0] = 9;
    let mut unknown = hello(4, ClientTick::WaitForServer);
    unknown[3] = 0;
    server.tick(&config, 20, vec![(addr(99), forged), (addr(4), unknown)]);
    assert_eq!(ids(&server), vec![3]);
    assert_eq!(server.remotes[0].tick(), ServerTick::WaitForClients);
    assert_eq!(server.remotes[0].last_receive_time, 10);
    assert_eq!(server.remotes[0].connection().address(), addr(3));
}

#[test]
fn unknown_first_packets_are_not_admitted() {
    let config = Config::default();
    let mut server = Server::new(&config, ConnectionID::new(7), false, 0);
    let (_, outbox) = server.tick(&config, 10, vec![(addr(3), hello(3, ClientTick::Ready))]);
    assert!(server.remotes.is_empty());
    assert!(outbox.is_empty());
}

#[test]
fn no_client_is_admitted_once_started_or_full() {
    let config = Config { server_max_clients: 1, ..Config::default() };
    let mut server = Server::new(&config, ConnectionID::new(7), false, 0);
    let inbox = vec![
        (addr(3), hello(3, ClientTick::WaitForServer)),
        (addr(4), hello(4, ClientTick::WaitForServer)),
    ];
    server.tick(&config, 10, inbox);
    assert_eq!(ids(&server), vec![3]);

    let config = Config::default();
    let mut server = Server::new(&config, ConnectionID::new(7), true, 0);
    server.tick(&config, 10, vec![(addr(3), hello(3, ClientTick::WaitForServer))]);
    assert!(server.remotes.is_empty());
}

#[test]
fn route_tells_whether_a_remote_joined() {
    let config = Config::default();
    let mut server = Server::new(&config, ConnectionID::new(7), false, 0);
    let id = ConnectionID::new(3);
    assert!(server.route(&config, addr(3), id, ClientTick::WaitForServer, ClientMessage::Bare, 10));
    assert!(!server.route(&config, addr(3), id, ClientTick::SendOptions, ClientMessage::Bare, 20));
    assert_eq!(server.remotes[0].tick(), ServerTick::AwaitOptions);
    assert!(!server.route(&config, addr(4), ConnectionID::new(4), ClientTick::Ready, ClientMessage::Bare, 20));
    assert_eq!(ids(&server), vec![3]);
}

#[test]
fn accepted_packets_remap_the_address() {
    let config = Config::default();
    let mut server = Server::new(&config, ConnectionID::new(7), false, 0);
    server.tick(&config, 10, vec![(addr(3), hello(3, ClientTick::WaitForServer))]);
    // A packet that is not accepted leaves the address alone.
    server.tick(&config, 20, vec![(addr(50), hello(3, ClientTick::SendInput))]);
    assert_eq!(server.remotes[0].connection().address(), addr(3));
    let (_, outbox) = server.tick(&config, 30, vec![(addr(51), hello(3, ClientTick::SendOptions))]);
    assert_eq!(server.remotes[0].connection().address(), addr(51));
    assert_eq!(outbox[0].0, addr(51));
}

#[test]
fn lost_remotes_are_dropped() {
    let config = Config::default();
    let mut server = Server::new(&config, ConnectionID::new(7), false, 0);
    server.remotes.push(remote(3, ServerTick::WaitForClients, 0, 0));
    server.remotes.push(remote(5, ServerTick::WaitForClients, 0, 500));
    let mut gone = remote(8, ServerTick::WaitForClients, 0, 1400);
    gone.was_disconnected = true;
    server.remotes.push(gone);
    server.remotes.push(remote(9, ServerTick::WaitForClients, 0, 1400));
    // 1000 ms without a packet are not yet too long.
    assert_eq!(server.settle(&config, 1000, false), Some(ServerTick::WaitForClients));
    assert_eq!(ids(&server), vec![3, 5, 9]);
    assert_eq!(server.settle(&config, 1001, false), Some(ServerTick::WaitForClients));
    assert_eq!(ids(&server), vec![5, 9]);
    assert_eq!(server.settle(&config, 5000, false), None);
    assert!(server.remotes.is_empty());
}

#[test]
fn order_is_kept_unless_a_remote_joins() {
    let config = Config::default();
    let mut server = Server::new(&config, ConnectionID::new(5), false, 0);
    for id in [3, 5, 9] {
        let mut joined = remote(id, ServerTick::WaitForClients, 0, 0);
        joined.set_order(40);
        server.remotes.push(joined);
    }
    server.settle(&config, 10, false);
    assert_eq!(orders(&server), vec![40, 40, 40]);
    server.settle(&config, 10, true);
    assert_eq!(orders(&server), vec![0, 255, 2]);
}

#[test]
fn shared_tick_is_that_of_the_slowest_remote() {
    let config = Config::default();
    let mut server = Server::new(&config, ConnectionID::new(5), false, 0);
    server.remotes.push(remote(3, ServerTick::AwaitInput, 0, 0));
    server.remotes.push(remote(5, ServerTick::ConfirmOptions, 0, 0));
    server.remotes.push(remote(9, ServerTick::Initialize, 0, 0));
    let (rate, outbox) = server.tick(&config, 10, vec![]);
    assert_eq!(rate, 10);
    assert!(!server.started);
    // Every header carries the remote's own tick, every payload that of confirmed options.
    assert_eq!(outbox[0].1, vec![1, 2, 3, 4, 0, 0, 0, 3, 6, 0]);
    assert_eq!(outbox[1].1, vec![1, 2, 3, 4, 0, 0, 0, 5, 2, 0]);
    assert_eq!(outbox[2].1, vec![1, 2, 3, 4, 0, 0, 0, 9, 4, 0]);
}

#[test]
fn session_starts_when_all_remotes_initialize() {
    let config = Config::default();
    let mut server = Server::new(&config, ConnectionID::new(5), false, 0);
    server.remotes.push(remote(3, ServerTick::AwaitInput, 0, 0));
    server.remotes.push(remote(5, ServerTick::Initialize, 0, 0));
    let (rate, outbox) = server.tick(&config, 10, vec![]);
    assert_eq!(rate, 30);
    assert!(server.started);
    assert_eq!(server.last_tick_time, 10);
    let mut roster = vec![2];
    roster.extend(server.remotes[0].connection().encode().unwrap());
    roster.extend(server.remotes[1].connection().encode().unwrap());
    assert_eq!(outbox[0].1[9..], roster[..]);
    assert_eq!(outbox[1].1[9..], roster[..]);
}

#[test]
fn sequence_advances_when_every_remote_has_sent() {
    let config = Config::default();
    let mut server = Server::new(&config, ConnectionID::new(5), true, 0);
    server.remotes.push(remote(3, ServerTick::AwaitInput, 1, 20));
    server.remotes.push(remote(5, ServerTick::AwaitInput, 0, 20));
    assert_eq!(server.settle(&config, 20, false), Some(ServerTick::AwaitInput));
    assert_eq!(server.sequence, 0);
    assert_eq!(server.last_tick_time, 0);
    server.remotes[1].sequence = 1;
    server.settle(&config, 20, false);
    assert_eq!(server.sequence, 1);
    assert_eq!(server.last_tick_time, 20);
    assert_eq!(server.ticks_per_sequence, 1);
    assert_eq!(server.tick_buffer, 0);
}

#[test]
fn sequence_does_not_advance_before_the_start() {
    let config = Config::default();
    let mut server = Server::new(&config, ConnectionID::new(5), false, 0);
    server.remotes.push(remote(3, ServerTick::AwaitInput, 1, 20));
    server.settle(&config, 20, false);
    assert_eq!(server.sequence, 0);
}

#[test]
fn late_sequences_add_ticks_to_catch_up() {
    // 30 packets per second are 33 ms for each.
    let config = Config::default();
    let mut server = Server::new(&config, ConnectionID::new(5), true, 0);
    server.remotes.push(remote(3, ServerTick::AwaitInput, 1, 100));
    server.settle(&config, 100, false);
    // 100 ms are 67 ms late: two whole intervals, 1 ms is left.
    assert_eq!(server.ticks_per_sequence, 3);
    assert_eq!(server.tick_buffer, 1);
    assert_eq!(server.sequence, 1);

    server.remotes[0].sequence = 2;
    server.remotes[0].last_receive_time = 165;
    server.settle(&config, 165, false);
    // 65 ms are 32 ms late, with the 1 ms from before one interval.
    assert_eq!(server.ticks_per_sequence, 2);
    assert_eq!(server.tick_buffer, 0);
    assert_eq!(server.sequence, 2);
}

#[test]
fn catch_up_is_capped_at_sixteen_ticks() {
    let config = Config::default();
    let mut server = Server::new(&config, ConnectionID::new(5), true, 0);
    server.remotes.push(remote(3, ServerTick::AwaitInput, 1, 10_000));
    server.settle(&config, 10_000, false);
    assert_eq!(server.ticks_per_sequence, 17);
    assert_eq!(server.tick_buffer, 9967 - 16 * 33);
}

#[test]
fn backlog_stops_at_the_largest_value() {
    let config = Config::default();
    let mut server = Server::new(&config, ConnectionID::new(5), true, 0);
    server.tick_buffer = u32::MAX - 10;
    server.remotes.push(remote(3, ServerTick::AwaitInput, 1, u64::MAX));
    server.settle(&config, u64::MAX, false);
    assert_eq!(server.ticks_per_sequence, 17);
    assert_eq!(server.tick_buffer, u32::MAX - 16 * 33);
}

#[test]
fn sequence_wraps_after_255() {
    let config = Config::default();
    let mut server = Server::new(&config, ConnectionID::new(5), true, 0);
    server.sequence = 255;
    server.remotes.push(remote(3, ServerTick::AwaitInput, 0, 10));
    server.settle(&config, 10, false);
    assert_eq!(server.sequence, 0);
}

#[test]
fn inputs_are_broadcast_in_identifier_order() {
    let config = Config::default();
    let mut server = Server::new(&config, ConnectionID::new(5), true, 0);
    let mut first = remote(3, ServerTick::AwaitInput, 1, 10);
    first.input = Some(RemoteInput::new(ConnectionID::new(3), 0, vec![Buttons(1)]));
    let mut second = remote(5, ServerTick::AwaitInput, 1, 10);
    second.input = Some(RemoteInput::new(ConnectionID::new(5), 0, vec![]));
    server.remotes.push(first);
    server.remotes.push(second);
    let (rate, outbox) = server.tick(&config, 10, vec![]);
    assert_eq!(rate, 30);
    let expected = vec![
        1, 1, 2, //
        14, 3, 0, 0, 0, 1, 0, 0, 0, 0, 0, 0, 0, 1, 0, //
        13, 5, 0, 0, 0, 0, 0, 0, 0, 0, 0, 0, 0, 0,
    ];
    assert_eq!(outbox[0].1[9..], expected[..]);
    assert_eq!(outbox[1].1[9..], expected[..]);
}

#[test]
fn migrated_server_takes_the_roster_over() {
    let config = Config::default();
    let migration = Migration {
        previous_host: HostID::new(ConnectionID::new(7)),
        local_host: ConnectionID::new(3),
        connection: vec![
            (ConnectionID::new(7), RemoteConnection::new(ConnectionID::new(7), addr(7), 255)),
            (ConnectionID::new(3), RemoteConnection::new(ConnectionID::new(3), addr(3), 0)),
            (ConnectionID::new(5), RemoteConnection::new(ConnectionID::new(5), addr(5), 1)),
            (ConnectionID::new(3), RemoteConnection::new(ConnectionID::new(3), addr(30), 4)),
        ],
    };
    let mut server: Server = create_server(&config, migration, true, 50);
    assert!(server.started);
    assert_eq!(server.host_id, ConnectionID::new(3));
    assert_eq!(ids(&server), vec![3, 5, 7]);
    assert_eq!(orders(&server), vec![4, 1, 255]);
    assert_eq!(server.remotes[0].connection().address(), addr(30));
    assert!(server.remotes.iter().all(|r| r.tick() == ServerTick::Migrate && r.last_receive_time == 50));
    assert!(server.remotes[2].disconnected());
    // The host of old is dropped at once, the others are told who hosts now.
    let (rate, outbox) = server.tick(&config, 60, vec![]);
    assert_eq!(rate, 10);
    assert_eq!(ids(&server), vec![3, 5]);
    assert_eq!(outbox[0].1, vec![1, 2, 3, 4, 0, 0, 0, 3, 3, 3, 0, 0, 0]);
    assert_eq!(outbox[1].1, vec![1, 2, 3, 4, 0, 0, 0, 5, 3, 3, 0, 0, 0]);
}
