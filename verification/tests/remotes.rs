use stratland::clockwork::client_remote::HostMessage;
use stratland::clockwork::server_remote::ClientMessage;
use stratland::clockwork::{
    base_packet, ClientEvent, ClientRemote, ClientTick, Config, ConnectionID, HostID, Input,
    Options, RemoteAddr, RemoteConnection, RemoteInput, RemoteOptions, ServerRemote, ServerTick,
};

#[derive(Debug, Clone, PartialEq)]
struct Rules {
    min_players: u8,
}

impl Options for Rules {
    fn encode(options: &RemoteOptions<Self>) -> Option<Vec<u8>> {
        bincode::serialize(&(options.id.raw(), options.data.min_players), bincode::Infinite).ok()
    }

    fn decode(bytes: &[u8]) -> Option<RemoteOptions<Self>> {
        let (id, min_players) = bincode::deserialize::<(u32, u8)>(bytes).ok()?;
        Some(RemoteOptions::new(ConnectionID::new(id), Rules { min_players }))
    }

    fn content_hash(&self) -> u64 {
        self.min_players as u64
    }
}

#[derive(Debug, Clone, Copy, PartialEq)]
struct Buttons(u8);

impl Input for Buttons {
    fn encode(input: &RemoteInput<Self>) -> Option<Vec<u8>> {
        let data: Vec<u8> = input.data.iter().map(|b| b.0).collect();
        bincode::serialize(&(input.id.raw(), data, input.sequence), bincode::Infinite).ok()
    }

    fn decode(bytes: &[u8]) -> Option<RemoteInput<Self>> {
        let (id, data, sequence) = bincode::deserialize::<(u32, Vec<u8>, u8)>(bytes).ok()?;
        Some(RemoteInput::new(
            ConnectionID::new(id),
            sequence,
            data.into_iter().map(Buttons).collect(),
        ))
    }
}

const CLIENT_TICKS: [ClientTick; 6] = [
    ClientTick::WaitForServer,
    ClientTick::SendOptions,
    ClientTick::Ready,
    ClientTick::SyncConfirm,
    ClientTick::SendInput,
    ClientTick::Unknown,
];

const SERVER_TICKS: [ServerTick; 8] = [
    ServerTick::WaitForClients,
    ServerTick::AwaitOptions,
    ServerTick::ConfirmOptions,
    ServerTick::Migrate,
    ServerTick::Initialize,
    ServerTick::InitializeMigrate,
    ServerTick::AwaitInput,
    ServerTick::Unknown,
];

fn me() -> ConnectionID {
    ConnectionID::new(0x0a0b_0c0d)
}

fn home() -> RemoteAddr {
    RemoteAddr::new([127, 0, 0, 1], 7156)
}

fn client_in(tick: ClientTick) -> ClientRemote<Rules> {
    let mut remote = ClientRemote::new(me(), home(), 5);
    remote.tick = tick;
    remote.sequence = 7;
    remote
}

fn server_in(tick: ServerTick) -> ServerRemote<Rules, Buttons> {
    let mut remote = ServerRemote::new(me(), home(), None, Some(tick), false, 5);
    remote.sequence = 7;
    remote
}

fn packet(tick: u8, payload: &[u8]) -> Vec<u8> {
    let mut packet = base_packet(me(), &Config::default(), tick);
    packet.extend_from_slice(payload);
    packet
}

fn input(id: u32, sequence: u8, buttons: &[u8]) -> RemoteInput<Buttons> {
    RemoteInput::new(ConnectionID::new(id), sequence, buttons.iter().map(|b| Buttons(*b)).collect())
}

fn client_answers(own: ClientTick, host: ServerTick) -> bool {
    matches!(
        (own, host),
        (ClientTick::WaitForServer, ServerTick::Migrate)
            | (ClientTick::WaitForServer, ServerTick::WaitForClients)
            | (ClientTick::WaitForServer, ServerTick::InitializeMigrate)
            | (ClientTick::SendOptions, ServerTick::AwaitOptions)
            | (ClientTick::SendOptions, ServerTick::WaitForClients)
            | (ClientTick::SendOptions, ServerTick::ConfirmOptions)
            | (ClientTick::Ready, ServerTick::Migrate)
            | (ClientTick::Ready, ServerTick::Initialize)
            | (ClientTick::Ready, ServerTick::InitializeMigrate)
            | (ClientTick::SyncConfirm, ServerTick::InitializeMigrate)
            | (ClientTick::SyncConfirm, ServerTick::AwaitInput)
            | (ClientTick::SendInput, ServerTick::AwaitInput)
    )
}

#[test]
fn client_ignores_every_pair_outside_its_table() {
    for own in CLIENT_TICKS {
        for host in SERVER_TICKS {
            let mut remote = client_in(own);
            let told = remote.take::<Buttons>(me(), host, HostMessage::Host(ConnectionID::new(1)), 99);
            if client_answers(own, host) {
                assert_eq!(remote.last_receive_time, 99);
            } else {
                assert!(told.is_none());
                assert_eq!(remote.tick, own);
                assert_eq!(remote.sequence, 7);
                assert_eq!(remote.last_receive_time, 5);
            }
        }
    }
}

#[test]
fn client_ignores_packets_for_others() {
    let mut remote = client_in(ClientTick::WaitForServer);
    let told = remote.take::<Buttons>(
        ConnectionID::new(1),
        ServerTick::WaitForClients,
        HostMessage::Host(ConnectionID::new(1)),
        99,
    );
    assert!(told.is_none());
    assert_eq!(remote.tick, ClientTick::WaitForServer);
    assert_eq!(remote.last_receive_time, 5);
}

#[test]
fn client_joins_a_fresh_host() {
    let mut remote = client_in(ClientTick::WaitForServer);
    let told = remote
        .take::<Buttons>(me(), ServerTick::WaitForClients, HostMessage::Host(ConnectionID::new(42)), 99)
        .unwrap();
    assert!(matches!(told[..], [ClientEvent::Connected(id)] if id == ConnectionID::new(42)));
    assert_eq!(remote.tick, ClientTick::SendOptions);
    assert_eq!(remote.sequence, 0);
}

#[test]
fn client_joins_a_migrated_host() {
    let mut remote = client_in(ClientTick::WaitForServer);
    let told = remote
        .take::<Buttons>(me(), ServerTick::Migrate, HostMessage::Host(ConnectionID::new(42)), 99)
        .unwrap();
    assert!(matches!(told[..], [ClientEvent::Connected(id)] if id == ConnectionID::new(42)));
    assert_eq!(remote.tick, ClientTick::Ready);
    assert_eq!(remote.sequence, 0);
}

#[test]
fn client_waits_without_a_host_identifier() {
    let mut remote = client_in(ClientTick::WaitForServer);
    assert!(remote.take::<Buttons>(me(), ServerTick::Migrate, HostMessage::Bare, 99).is_none());
    assert_eq!(remote.tick, ClientTick::WaitForServer);
    assert_eq!(remote.sequence, 7);
    assert_eq!(remote.last_receive_time, 99);
}

#[test]
fn client_hands_confirmed_options_on() {
    let mut remote = client_in(ClientTick::SendOptions);
    let options = vec![RemoteOptions::new(ConnectionID::new(1), Rules { min_players: 2 })];
    let told = remote
        .take::<Buttons>(me(), ServerTick::ConfirmOptions, HostMessage::Options(options), 99)
        .unwrap();
    match &told[..] {
        [ClientEvent::Options(options)] => {
            assert_eq!(options.len(), 1);
            assert_eq!(options[0].id, ConnectionID::new(1));
            assert_eq!(options[0].data, Rules { min_players: 2 });
        }
        _ => panic!("options expected"),
    }
    assert_eq!(remote.tick, ClientTick::SendOptions);
}

#[test]
fn client_confirms_sync_after_the_roster() {
    let mut remote = client_in(ClientTick::Ready);
    let roster = vec![RemoteConnection::new(me(), home(), 3)];
    let told = remote
        .take::<Buttons>(me(), ServerTick::Initialize, HostMessage::Roster(roster.clone()), 99)
        .unwrap();
    assert!(matches!(&told[..], [ClientEvent::Ready(Some(r))] if *r == roster));
    assert_eq!(remote.tick, ClientTick::SyncConfirm);
}

#[test]
fn client_resyncs_without_a_roster_after_migration() {
    let mut remote = client_in(ClientTick::Ready);
    let told = remote.take::<Buttons>(me(), ServerTick::InitializeMigrate, HostMessage::Bare, 99).unwrap();
    assert!(matches!(told[..], [ClientEvent::Ready(None)]));
    assert_eq!(remote.tick, ClientTick::SyncConfirm);
}

#[test]
fn client_starts_sending_inputs() {
    let mut remote = client_in(ClientTick::SyncConfirm);
    assert!(remote.take::<Buttons>(me(), ServerTick::AwaitInput, HostMessage::Bare, 99).is_none());
    assert_eq!(remote.tick, ClientTick::SendInput);
}

#[test]
fn client_takes_a_complete_round() {
    let mut remote = client_in(ClientTick::SendInput);
    let inputs = vec![input(1, 7, &[4]), input(2, 7, &[])];
    let told = remote
        .take(me(), ServerTick::AwaitInput, HostMessage::Inputs(8, 3, 2, inputs), 99)
        .unwrap();
    match &told[..] {
        [ClientEvent::Inputs(ticks, inputs)] => {
            assert_eq!(*ticks, 3);
            assert_eq!(inputs.len(), 2);
            assert_eq!(inputs[0].data, vec![Buttons(4)]);
        }
        _ => panic!("inputs expected"),
    }
    assert_eq!(remote.sequence, 8);
    assert_eq!(remote.tick, ClientTick::SendInput);
}

#[test]
fn client_sequence_wraps() {
    let mut remote = client_in(ClientTick::SendInput);
    remote.sequence = 255;
    let told = remote.take(me(), ServerTick::AwaitInput, HostMessage::Inputs(0, 1, 1, vec![input(1, 255, &[])]), 99);
    assert!(told.is_some());
    assert_eq!(remote.sequence, 0);
}

#[test]
fn client_rejects_incomplete_or_misnumbered_rounds() {
    // One record belongs to another sequence.
    let mut remote = client_in(ClientTick::SendInput);
    let inputs = vec![input(1, 7, &[]), input(2, 6, &[])];
    assert!(remote.take(me(), ServerTick::AwaitInput, HostMessage::Inputs(8, 1, 2, inputs), 99).is_none());
    assert_eq!(remote.sequence, 7);
    // One record is missing.
    let mut remote = client_in(ClientTick::SendInput);
    assert!(remote
        .take(me(), ServerTick::AwaitInput, HostMessage::Inputs(8, 1, 2, vec![input(1, 7, &[])]), 99)
        .is_none());
    assert_eq!(remote.sequence, 7);
    // The host announces another sequence than the next.
    let mut remote = client_in(ClientTick::SendInput);
    assert!(remote
        .take(me(), ServerTick::AwaitInput, HostMessage::Inputs(9, 1, 1, vec![input(1, 7, &[])]), 99)
        .is_none());
    assert_eq!(remote.sequence, 7);
    // No record is declared.
    let mut remote = client_in(ClientTick::SendInput);
    assert!(remote
        .take::<Buttons>(me(), ServerTick::AwaitInput, HostMessage::Inputs(8, 1, 0, vec![]), 99)
        .is_none());
    assert_eq!(remote.sequence, 7);
    assert_eq!(remote.last_receive_time, 99);
}

#[test]
fn client_reads_a_host_announcement() {
    let mut remote = client_in(ClientTick::WaitForServer);
    let told = remote.receive::<Buttons>(me(), packet(0, &[42, 0, 0, 0]), 99).unwrap();
    assert!(matches!(told[..], [ClientEvent::Connected(id)] if id == ConnectionID::new(42)));
    assert_eq!(remote.tick, ClientTick::SendOptions);
}

#[test]
fn client_reads_confirmed_options() {
    let mut remote = client_in(ClientTick::SendOptions);
    let told = remote
        .receive::<Buttons>(me(), packet(2, &[2, 1, 0, 0, 0, 2, 9, 0, 0, 0, 3]), 99)
        .unwrap();
    match &told[..] {
        [ClientEvent::Options(options)] => {
            assert_eq!(options.len(), 2);
            assert_eq!(options[0].id, ConnectionID::new(1));
            assert_eq!(options[0].data, Rules { min_players: 2 });
            assert_eq!(options[1].id, ConnectionID::new(9));
            assert_eq!(options[1].data, Rules { min_players: 3 });
        }
        _ => panic!("options expected"),
    }
}

#[test]
fn client_ignores_options_with_inconsistent_counts() {
    for payload in [&[0u8, 1, 0, 0, 0, 2][..], &[2, 1, 0, 0, 0, 2, 9, 9][..], &[3][..]] {
        let mut remote = client_in(ClientTick::SendOptions);
        assert!(remote.receive::<Buttons>(me(), packet(2, payload), 99).is_none());
        assert_eq!(remote.tick, ClientTick::SendOptions);
    }
}

#[test]
fn client_reads_the_roster() {
    let first = RemoteConnection::new(ConnectionID::new(3), RemoteAddr::new([10, 0, 0, 2], 5000), 0);
    let second = RemoteConnection::new(ConnectionID::new(7), RemoteAddr::new([10, 0, 0, 1], 5000), 255);
    let mut payload = vec![2];
    payload.extend(first.encode().unwrap());
    payload.extend(second.encode().unwrap());
    let mut remote = client_in(ClientTick::Ready);
    let told = remote.receive::<Buttons>(me(), packet(4, &payload), 99).unwrap();
    assert!(matches!(&told[..], [ClientEvent::Ready(Some(r))] if *r == vec![first, second]));
    assert_eq!(remote.tick, ClientTick::SyncConfirm);
}

#[test]
fn client_ignores_a_roster_with_inconsistent_counts() {
    for payload in [&[0u8][..], &[2, 1, 2, 3][..], &[][..]] {
        let mut remote = client_in(ClientTick::Ready);
        assert!(remote.receive::<Buttons>(me(), packet(4, payload), 99).is_none());
        assert_eq!(remote.tick, ClientTick::Ready);
    }
}

#[test]
fn client_reads_a_round_of_inputs() {
    let first = Buttons::encode(&input(3, 7, &[1, 2])).unwrap();
    let second = Buttons::encode(&input(9, 7, &[])).unwrap();
    let mut payload = vec![8, 2, 2];
    payload.push(first.len() as u8);
    payload.extend(first);
    payload.push(second.len() as u8);
    payload.extend(second);
    let mut remote = client_in(ClientTick::SendInput);
    let told = remote.receive::<Buttons>(me(), packet(6, &payload), 99).unwrap();
    match &told[..] {
        [ClientEvent::Inputs(ticks, inputs)] => {
            assert_eq!(*ticks, 2);
            assert_eq!(inputs.len(), 2);
            assert_eq!(inputs[0].id, ConnectionID::new(3));
            assert_eq!(inputs[0].data, vec![Buttons(1), Buttons(2)]);
            assert_eq!(inputs[1].id, ConnectionID::new(9));
        }
        _ => panic!("inputs expected"),
    }
    assert_eq!(remote.sequence, 8);
}

#[test]
fn client_ignores_truncated_inputs() {
    let record = Buttons::encode(&input(3, 7, &[1, 2])).unwrap();
    let mut payload = vec![8, 2, 1];
    payload.push(record.len() as u8);
    payload.extend(&record[..record.len() - 1]);
    let mut remote = client_in(ClientTick::SendInput);
    assert!(remote.receive::<Buttons>(me(), packet(6, &payload), 99).is_none());
    assert_eq!(remote.sequence, 7);
    let mut remote = client_in(ClientTick::SendInput);
    assert!(remote.receive::<Buttons>(me(), packet(6, &[8, 2, 1]), 99).is_none());
    assert_eq!(remote.sequence, 7);
}

#[test]
fn client_ignores_short_packets() {
    let mut remote = client_in(ClientTick::WaitForServer);
    assert!(remote.receive::<Buttons>(me(), vec![1, 2, 3, 4, 0, 0, 0, 0], 99).is_none());
    assert_eq!(remote.last_receive_time, 5);
}

#[test]
fn client_sends_header_options_and_inputs() {
    let config = Config::default();
    let mut remote = client_in(ClientTick::WaitForServer);
    assert_eq!(remote.send(&config, vec![Buttons(1)]), vec![1, 2, 3, 4, 10, 11, 12, 13, 0]);
    remote.tick = ClientTick::SendOptions;
    assert_eq!(remote.send::<Buttons>(&config, vec![]), vec![1, 2, 3, 4, 10, 11, 12, 13, 1]);
    remote.set_options(Rules { min_players: 2 });
    assert_eq!(
        remote.send::<Buttons>(&config, vec![]),
        vec![1, 2, 3, 4, 10, 11, 12, 13, 1, 13, 12, 11, 10, 2]
    );
    remote.tick = ClientTick::SendInput;
    assert_eq!(
        remote.send(&config, vec![Buttons(5), Buttons(6)]),
        vec![1, 2, 3, 4, 10, 11, 12, 13, 4, 7, 13, 12, 11, 10, 2, 0, 0, 0, 0, 0, 0, 0, 5, 6, 7]
    );
}

#[test]
fn client_frames_what_it_is_given() {
    let config = Config::default();
    let mut remote = client_in(ClientTick::SendInput);
    assert_eq!(
        remote.frame(&config, Some(vec![9]), Some(vec![8, 8])),
        vec![1, 2, 3, 4, 10, 11, 12, 13, 4, 7, 8, 8]
    );
    assert_eq!(remote.frame(&config, Some(vec![9]), None), vec![1, 2, 3, 4, 10, 11, 12, 13, 4, 7]);
    remote.tick = ClientTick::SendOptions;
    assert_eq!(
        remote.frame(&config, Some(vec![9]), Some(vec![8, 8])),
        vec![1, 2, 3, 4, 10, 11, 12, 13, 1, 9]
    );
    remote.tick = ClientTick::Ready;
    assert_eq!(
        remote.frame(&config, Some(vec![9]), Some(vec![8, 8])),
        vec![1, 2, 3, 4, 10, 11, 12, 13, 2]
    );
}

#[test]
fn client_times_out_after_the_threshold() {
    let config = Config::default();
    let remote = client_in(ClientTick::Ready);
    assert!(!remote.timed_out(&config, 0));
    assert!(!remote.timed_out(&config, 1005));
    assert!(remote.timed_out(&config, 1006));
    assert!(!remote.disconnected());
}

#[test]
fn client_reset_waits_for_the_server_again() {
    let mut remote = client_in(ClientTick::SendInput);
    remote.reset(77);
    assert_eq!(remote.tick, ClientTick::WaitForServer);
    assert_eq!(remote.last_receive_time, 77);
    assert_eq!(remote.sequence, 7);
    remote.set_tick(ClientTick::Ready);
    assert_eq!(remote.tick, ClientTick::Ready);
    assert_eq!(remote.connection().id(), me());
}

fn server_answers(own: ServerTick, client: ClientTick) -> bool {
    matches!(
        (own, client),
        (ServerTick::WaitForClients, ClientTick::WaitForServer)
            | (ServerTick::WaitForClients, ClientTick::SendOptions)
            | (ServerTick::AwaitOptions, ClientTick::SendOptions)
            | (ServerTick::ConfirmOptions, ClientTick::SendOptions)
            | (ServerTick::ConfirmOptions, ClientTick::Ready)
            | (ServerTick::Migrate, ClientTick::WaitForServer)
            | (ServerTick::Migrate, ClientTick::Ready)
            | (ServerTick::Initialize, ClientTick::Ready)
            | (ServerTick::Initialize, ClientTick::SyncConfirm)
            | (ServerTick::InitializeMigrate, ClientTick::WaitForServer)
            | (ServerTick::InitializeMigrate, ClientTick::Ready)
            | (ServerTick::InitializeMigrate, ClientTick::SyncConfirm)
            | (ServerTick::AwaitInput, ClientTick::SyncConfirm)
            | (ServerTick::AwaitInput, ClientTick::SendInput)
    )
}

fn server_tick_after(own: ServerTick, client: ClientTick) -> ServerTick {
    match (own, client) {
        (ServerTick::WaitForClients, ClientTick::SendOptions) => ServerTick::AwaitOptions,
        (ServerTick::ConfirmOptions, ClientTick::Ready) => ServerTick::Initialize,
        (ServerTick::Migrate, ClientTick::Ready) => ServerTick::InitializeMigrate,
        (ServerTick::Initialize, ClientTick::SyncConfirm) => ServerTick::AwaitInput,
        (ServerTick::InitializeMigrate, ClientTick::SyncConfirm) => ServerTick::AwaitInput,
        _ => own,
    }
}

#[test]
fn server_follows_its_table_for_every_pair() {
    for own in SERVER_TICKS {
        for client in CLIENT_TICKS {
            let mut remote = server_in(own);
            let accepted = remote.take(3, me(), client, ClientMessage::Bare, 99);
            assert_eq!(accepted, server_answers(own, client));
            assert_eq!(remote.tick, server_tick_after(own, client));
            assert_eq!(remote.last_receive_time, if accepted { 99 } else { 5 });
            let restarted = client == ClientTick::Ready
                && matches!(own, ServerTick::ConfirmOptions | ServerTick::Initialize | ServerTick::Migrate);
            assert_eq!(remote.sequence, if restarted { 0 } else { 7 });
        }
    }
}

#[test]
fn server_ignores_packets_of_others() {
    let mut remote = server_in(ServerTick::WaitForClients);
    assert!(!remote.take(3, ConnectionID::new(1), ClientTick::SendOptions, ClientMessage::Bare, 99));
    assert_eq!(remote.tick, ServerTick::WaitForClients);
}

#[test]
fn server_stores_options_and_confirms_them() {
    for own in [ServerTick::AwaitOptions, ServerTick::ConfirmOptions] {
        let mut remote = server_in(own);
        let options = RemoteOptions::new(me(), Rules { min_players: 4 });
        assert!(remote.take(3, me(), ClientTick::SendOptions, ClientMessage::Options(options), 99));
        assert_eq!(remote.tick, ServerTick::ConfirmOptions);
        assert_eq!(remote.options().unwrap().data, Rules { min_players: 4 });
    }
}

#[test]
fn server_advances_on_the_expected_input_only() {
    let mut remote = server_in(ServerTick::AwaitInput);
    assert!(remote.take(7, me(), ClientTick::SendInput, ClientMessage::Input(input(1, 7, &[3])), 99));
    assert_eq!(remote.sequence(), 8);
    assert_eq!(remote.input().unwrap().data, vec![Buttons(3)]);

    // The session waits for another sequence.
    let mut remote = server_in(ServerTick::AwaitInput);
    assert!(remote.take(6, me(), ClientTick::SendInput, ClientMessage::Input(input(1, 7, &[3])), 99));
    assert_eq!(remote.sequence(), 7);
    assert!(remote.input().is_none());

    // The input is of another sequence than the remote's.
    let mut remote = server_in(ServerTick::AwaitInput);
    assert!(remote.take(6, me(), ClientTick::SendInput, ClientMessage::Input(input(1, 6, &[3])), 99));
    assert_eq!(remote.sequence(), 7);
    assert!(remote.input().is_none());

    // The remote does not wait for inputs.
    let mut remote = server_in(ServerTick::Initialize);
    assert!(!remote.take(7, me(), ClientTick::SendInput, ClientMessage::Input(input(1, 7, &[3])), 99));
    assert_eq!(remote.sequence(), 7);
    assert!(remote.input().is_none());
}

#[test]
fn server_reads_options_and_inputs_from_packets() {
    let mut remote = server_in(ServerTick::AwaitOptions);
    assert!(remote.receive(0, me(), packet(1, &[13, 12, 11, 10, 2]), 99));
    assert_eq!(remote.tick(), ServerTick::ConfirmOptions);
    assert_eq!(remote.options().unwrap().data, Rules { min_players: 2 });

    let mut remote = server_in(ServerTick::AwaitOptions);
    assert!(remote.receive(0, me(), packet(1, &[13, 12]), 99));
    assert_eq!(remote.tick(), ServerTick::AwaitOptions);
    assert!(remote.options().is_none());

    let mut remote = server_in(ServerTick::AwaitInput);
    let mut payload = vec![7];
    payload.extend(Buttons::encode(&input(1, 7, &[5, 6])).unwrap());
    assert!(remote.receive(7, me(), packet(4, &payload), 99));
    assert_eq!(remote.sequence(), 8);
    assert_eq!(remote.input().unwrap().data, vec![Buttons(5), Buttons(6)]);

    let mut remote = server_in(ServerTick::AwaitInput);
    assert!(!remote.receive(7, me(), vec![1, 2, 3, 4, 10, 11, 12, 13], 99));
    assert_eq!(remote.last_receive_time, 5);
}

#[test]
fn server_sends_the_payload_of_the_shared_tick() {
    let config = Config::default();
    let remote = server_in(ServerTick::AwaitInput);
    let host = ConnectionID::new(0x0102_0304);
    let first = RemoteConnection::new(ConnectionID::new(3), RemoteAddr::new([10, 0, 0, 2], 5000), 0);
    let options = RemoteOptions::new(ConnectionID::new(3), Rules { min_players: 2 });
    let inputs = input(3, 7, &[1]);
    let header = vec![1, 2, 3, 4, 10, 11, 12, 13, 6];
    let send = |tick| remote.send(&config, tick, 8, 2, host, &[&first], &[&options, &options], &[&inputs]);

    let mut expected = header.clone();
    expected.extend([4, 3, 2, 1]);
    assert_eq!(send(ServerTick::WaitForClients), expected);
    assert_eq!(send(ServerTick::Migrate), expected);

    let mut expected = header.clone();
    expected.extend([2, 3, 0, 0, 0, 2, 3, 0, 0, 0, 2]);
    assert_eq!(send(ServerTick::ConfirmOptions), expected);

    let mut expected = header.clone();
    expected.extend([1, 3, 0, 0, 0, 10, 0, 0, 2, 0x88, 0x13, 0]);
    assert_eq!(send(ServerTick::Initialize), expected);

    let mut expected = header.clone();
    expected.extend([8, 2, 1, 14, 3, 0, 0, 0, 1, 0, 0, 0, 0, 0, 0, 0, 1, 7]);
    assert_eq!(send(ServerTick::AwaitInput), expected);

    assert_eq!(send(ServerTick::AwaitOptions), header);
    assert_eq!(send(ServerTick::InitializeMigrate), header);
}

#[test]
fn server_leaves_out_input_records_that_are_too_long() {
    let config = Config::default();
    let remote = server_in(ServerTick::AwaitInput);
    let long = vec![0u8; 256];
    let short = vec![9u8; 255];
    let packet = remote.frame(&config, ServerTick::AwaitInput, 1, 1, me(), &[], 0, &vec![], 2, &vec![long, short.clone()]);
    let mut expected = vec![1, 2, 3, 4, 10, 11, 12, 13, 6, 1, 1, 2, 255];
    expected.extend(short);
    assert_eq!(packet, expected);
}

#[test]
fn server_remote_accessors() {
    let connection = RemoteConnection::new(me(), home(), 4);
    let mut remote: ServerRemote<Rules, Buttons> =
        ServerRemote::new(ConnectionID::new(1), RemoteAddr::new([1, 1, 1, 1], 1), Some(connection), None, true, 5);
    assert_eq!(*remote.connection(), connection);
    assert_eq!(remote.tick(), ServerTick::WaitForClients);
    assert!(remote.disconnected());
    assert!(!remote.timed_out(&Config::default(), 1005));
    assert!(remote.timed_out(&Config::default(), 1006));
    remote.set_order(9);
    remote.set_address(RemoteAddr::new([2, 2, 2, 2], 2));
    assert_eq!(remote.connection().order(), 9);
    assert_eq!(remote.connection().address(), RemoteAddr::new([2, 2, 2, 2], 2));
    assert_eq!(remote.connection().id(), me());
}

#[test]
fn connection_survives_encoding() {
    let connection = RemoteConnection::new(ConnectionID::new(0xdead_beef), RemoteAddr::new([192, 168, 1, 20], 65535), 254);
    let bytes = connection.encode().unwrap();
    assert_eq!(bytes, vec![0xef, 0xbe, 0xad, 0xde, 192, 168, 1, 20, 0xff, 0xff, 254]);
    assert_eq!(RemoteConnection::decode(&bytes), Some(connection));
    assert_eq!(RemoteConnection::decode(&bytes[..10]), None);
}

#[test]
fn host_survives_encoding() {
    let host = HostID::new(ConnectionID::new(0x0102_0304));
    let bytes = host.encode().unwrap();
    assert_eq!(bytes, vec![4, 3, 2, 1]);
    assert_eq!(HostID::decode(&bytes), Some(host));
    assert_eq!(HostID::decode(&bytes[..3]), None);
}

#[test]
fn options_and_inputs_survive_encoding() {
    let options = RemoteOptions::new(ConnectionID::new(5), Rules { min_players: 3 });
    let decoded = Rules::decode(&Rules::encode(&options).unwrap()).unwrap();
    assert_eq!(decoded.id, options.id);
    assert_eq!(decoded.data, options.data);
    let inputs = input(5, 200, &[1, 2, 3]);
    let decoded = Buttons::decode(&Buttons::encode(&inputs).unwrap()).unwrap();
    assert_eq!(decoded.id, inputs.id);
    assert_eq!(decoded.sequence, inputs.sequence);
    assert_eq!(decoded.data, inputs.data);
}
