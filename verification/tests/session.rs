use stratland::clockwork::{
    create_server, ClientTick, Clockwork, ClockworkServer, Config, ConnectionID, Error, Event,
    HostID, Input, NetworkStatus, Options, Polled, RemoteAddr, RemoteInput, RemoteOptions,
    ServerTick, State,
};

#[derive(Debug, Clone, PartialEq)]
struct Rules {
    min_players: u8,
}

impl Options for Rules {
    fn encode(options: &RemoteOptions<Self>) -> Option<Vec<u8>> {
        bincode::serialize(&(options.id.raw(), options.data.min_players), bincode::Infinite).ok()
    }

    fn decode(bytes: &[u8]) -> Option<RemoteOptions<Self>> {
        let (id, min_players) = bincode::deserialize::<(u32, u8)>(bytes).ok()?;
        Some(RemoteOptions::new(ConnectionID::new(id), Rules { min_players }))
    }

    fn content_hash(&self) -> u64 {
        self.min_players as u64
    }
}

#[derive(Debug, Clone, Copy, PartialEq)]
struct Buttons(u8);

impl Input for Buttons {
    fn encode(input: &RemoteInput<Self>) -> Option<Vec<u8>> {
        let data: Vec<u8> = input.data.iter().map(|b| b.0).collect();
        bincode::serialize(&(input.id.raw(), data, input.sequence), bincode::Infinite).ok()
    }

    fn decode(bytes: &[u8]) -> Option<RemoteInput<Self>> {
        let (id, data, sequence) = bincode::deserialize::<(u32, Vec<u8>, u8)>(bytes).ok()?;
        Some(RemoteInput::new(
            ConnectionID::new(id),
            sequence,
            data.into_iter().map(Buttons).collect(),
        ))
    }
}

#[derive(Debug, Default)]
struct Board {
    ready: bool,
    ticks: u32,
    sum: u32,
    options: Vec<(u32, u8)>,
    rosters: Vec<usize>,
}

struct Tools {
    inits: u32,
}

impl State<Rules, Buttons, Tools> for Board {
    fn is_ready(&self) -> bool {
        self.ready
    }

    fn init(&mut self, _: HostID, roster: &[(ConnectionID, RemoteAddr)], tools: &mut Tools) {
        tools.inits += 1;
        self.rosters.push(roster.len());
    }

    fn tick(&mut self, _: HostID, _: &[(ConnectionID, RemoteAddr)]) {
        self.ticks += 1;
    }

    fn apply_options(&mut self, host: HostID, options: &[(ConnectionID, Rules)]) {
        self.options = options.iter().map(|(id, o)| (id.raw(), o.min_players)).collect();
        for (id, o) in options {
            if host.is_connection(id) && options.len() == o.min_players as usize {
                self.ready = true;
            }
        }
    }

    fn apply_input(&mut self, _: HostID, _: ConnectionID, input: Buttons) {
        self.sum += input.0 as u32;
    }
}

struct Peer {
    session: Clockwork<Board, Rules, Buttons>,
    addr: RemoteAddr,
    inbox: Vec<(RemoteAddr, Vec<u8>)>,
    events: Vec<Event>,
    tools: Tools,
    server: Option<ClockworkServer<Rules, Buttons>>,
    /// The number of players that this peer waits for.
    wanted: u8,
}

impl Peer {
    fn new(session: Clockwork<Board, Rules, Buttons>, addr: RemoteAddr) -> Peer {
        Peer {
            session,
            addr,
            inbox: Vec::new(),
            events: Vec::new(),
            tools: Tools { inits: 0 },
            server: None,
            wanted: 2,
        }
    }

    /// One tick of the application: all events, then one packet.
    fn step(&mut self, now: u64) -> Option<(RemoteAddr, Vec<u8>)> {
        let mut batch = Some(std::mem::take(&mut self.inbox));
        loop {
            let inbox = batch.take().unwrap_or_default();
            match self.session.try_recv(now, inbox, &mut self.tools) {
                Some(Polled::Event(event)) => {
                    if let Event::HostConnect(..) = event {
                        self.session.set_options(Rules { min_players: self.wanted });
                    }
                    self.events.push(event);
                }
                Some(Polled::Promote(migration, host, local)) => {
                    let config = self.session.config;
                    self.server = Some(create_server(&config, migration, true, now));
                    let event = self.session.promoted(true, host, local, now);
                    self.events.push(event);
                }
                None => break,
            }
        }
        let target = self.session.config.remote_addr;
        self.session.send().1.map(|packet| (target, packet))
    }
}

fn addr(last: u8, port: u16) -> RemoteAddr {
    RemoteAddr::new([10, 0, 0, last], port)
}

fn count(events: &[Event], wanted: fn(&Event) -> bool) -> usize {
    events.iter().filter(|e| wanted(e)).count()
}

/// A hosts, B joins; runs `rounds` rounds of 40 ms and gives the peers and the server.
fn two_peers(rounds: u32) -> (Peer, Peer, ClockworkServer<Rules, Buttons>, u64) {
    let config_a = Config::default();
    let config_b = Config { remote_addr: addr(1, 7156), ..Config::default() };
    let a_id = ConnectionID::new(7);
    let b_id = ConnectionID::new(3);
    let (session_a, migration) =
        Clockwork::connect_as(config_a, a_id, Board::default(), 0).with_server();
    let mut server: ClockworkServer<Rules, Buttons> = create_server(&config_a, migration, false, 0);
    let mut a = Peer::new(session_a, addr(1, 5000));
    let mut b = Peer::new(Clockwork::connect_as(config_b, b_id, Board::default(), 0), addr(2, 5000));
    let mut now = 0;
    for _ in 0..rounds {
        now += 40;
        let mut inbox = Vec::new();
        if let Some((_, packet)) = a.step(now) {
            inbox.push((a.addr, packet));
        }
        if let Some((_, packet)) = b.step(now) {
            inbox.push((b.addr, packet));
        }
        let (_, outbox) = server.tick(&config_a, now, inbox);
        for (to, packet) in outbox {
            if to == a.addr {
                a.inbox.push((config_a.remote_addr, packet));
            } else if to == b.addr {
                b.inbox.push((config_b.remote_addr, packet));
            }
        }
    }
    (a, b, server, now)
}

#[test]
fn two_clients_reach_input_exchange() {
    let (a, b, server, _) = two_peers(12);
    assert_eq!(a.session.client.local.tick, ClientTick::SendInput);
    assert_eq!(b.session.client.local.tick, ClientTick::SendInput);
    assert!(server.started);
    assert_eq!(server.remotes.len(), 2);
    assert_eq!(server.remotes[0].tick, ServerTick::AwaitInput);
    assert_eq!(server.remotes[1].tick, ServerTick::AwaitInput);
    for peer in [&a, &b] {
        assert_eq!(count(&peer.events, |e| matches!(e, Event::HostConnect(..))), 1);
        assert_eq!(count(&peer.events, |e| matches!(e, Event::HostReady(..))), 1);
        assert_eq!(count(&peer.events, |e| matches!(e, Event::RemoteJoined(..))), 2);
        assert_eq!(peer.tools.inits, 1);
        assert_eq!(peer.session.client.state.options, vec![(3, 2), (7, 2)]);
        assert_eq!(peer.session.client.network_status, NetworkStatus::Connected);
        assert_eq!(peer.session.client.connections.len(), 2);
    }
}

#[test]
fn ten_ticks_stay_synchronized() {
    let (a, b, server, _) = two_peers(40);
    let a_ticks = a.session.client.state.ticks;
    let b_ticks = b.session.client.state.ticks;
    assert!(a_ticks >= 10);
    assert_eq!(a_ticks, b_ticks);
    assert_eq!(a.session.client.local.sequence, b.session.client.local.sequence);
    assert!(a.session.client.local.sequence >= 10);
    assert!(a_ticks >= a.session.client.local.sequence as u32);
    // The last packets of the server are still on their way.
    assert_eq!(server.sequence, a.session.client.local.sequence + 1);
    assert_eq!(a.session.client.state.sum, 0);
    assert_eq!(b.session.client.state.sum, 0);
}

#[test]
fn queued_inputs_reach_every_state_once() {
    let (mut a, mut b, mut server, mut now) = two_peers(12);
    let config_a = a.session.config;
    let config_b = b.session.config;
    a.session.queue_input(Buttons(5));
    b.session.queue_input(Buttons(9));
    for _ in 0..10 {
        now += 40;
        let mut inbox = Vec::new();
        if let Some((_, packet)) = a.step(now) {
            inbox.push((a.addr, packet));
        }
        if let Some((_, packet)) = b.step(now) {
            inbox.push((b.addr, packet));
        }
        let (_, outbox) = server.tick(&config_a, now, inbox);
        for (to, packet) in outbox {
            if to == a.addr {
                a.inbox.push((config_a.remote_addr, packet));
            } else {
                b.inbox.push((config_b.remote_addr, packet));
            }
        }
    }
    assert_eq!(a.session.client.state.sum, 14);
    assert_eq!(b.session.client.state.sum, 14);
    assert!(a.session.client.input_queue.is_empty());
    assert!(b.session.client.input_queue.is_empty());
}

#[test]
fn lost_host_is_replaced_by_the_next_in_line() {
    let (_, mut b, _, mut now) = two_peers(20);
    let ticks_before = b.session.client.state.ticks;
    assert!(ticks_before > 0);
    let options_before = b.session.client.state.options.clone();
    let hash_before = b.session.client.last_options_hash;
    assert_eq!(b.session.client.connections[0].order(), 0);
    assert_eq!(b.session.client.connections[1].order(), 255);

    // The host is gone: nothing arrives any more.
    b.events.clear();
    let mut rounds = 0;
    while b.server.is_none() {
        now += 40;
        b.step(now);
        rounds += 1;
        assert!(rounds < 100);
    }
    assert!(rounds > 20);
    assert_eq!(
        b.events,
        vec![Event::HostReconnect(
            RemoteAddr::new([127, 0, 0, 1], 7156),
            HostID::new(ConnectionID::new(3)),
            ConnectionID::new(3),
        )]
    );
    assert!(b.session.hosting);
    assert_eq!(b.session.config.remote_addr, RemoteAddr::new([127, 0, 0, 1], 7156));

    // Its own server takes over.
    let config = b.session.config;
    let mut server = b.server.take().unwrap();
    assert_eq!(server.remotes.len(), 2);
    for _ in 0..12 {
        now += 40;
        let inbox: Vec<_> = b.step(now).into_iter().map(|(_, p)| (b.addr, p)).collect();
        let (_, outbox) = server.tick(&config, now, inbox);
        for (to, packet) in outbox {
            assert_eq!(to, b.addr);
            b.inbox.push((config.remote_addr, packet));
        }
    }
    assert_eq!(server.remotes.len(), 1);
    assert_eq!(count(&b.events, |e| matches!(e, Event::HostReady(..))), 1);
    assert_eq!(count(&b.events, |e| matches!(e, Event::HostConnect(..))), 1);
    assert_eq!(count(&b.events, |e| matches!(e, Event::RemoteLeft(..))), 1);
    assert_eq!(b.session.client.network_status, NetworkStatus::Connected);
    assert_eq!(b.session.client.local.tick, ClientTick::SendInput);
    assert_eq!(b.session.client.state.options, options_before);
    assert_eq!(b.session.client.last_options_hash, hash_before);
    assert!(b.session.client.used_host_migrations.is_empty());
    assert!(b.session.client.state.ticks > ticks_before);
    assert_eq!(b.tools.inits, 1);
}

#[test]
fn timeout_without_candidates_is_an_error() {
    let config = Config::default();
    let session = Clockwork::connect_as(config, ConnectionID::new(1), Board::default(), 0);
    let mut peer = Peer::new(session, addr(1, 5000));
    assert!(peer.step(1000).is_some());
    assert!(peer.events.is_empty());
    assert!(peer.step(1001).is_none());
    assert_eq!(peer.events, vec![Event::Error(Error::RemoteTimeout)]);
    assert_eq!(peer.session.client.network_status, NetworkStatus::Disconnected);
}

/// Three peers on three machines; the first hosts until it is taken away.
struct Net {
    peers: Vec<Peer>,
    /// The servers by the machine that runs them.
    servers: Vec<(u8, ClockworkServer<Rules, Buttons>)>,
    now: u64,
}

impl Net {
    fn machine(peer: &Peer) -> u8 {
        peer.addr.ip[3]
    }

    fn round(&mut self) {
        self.now += 40;
        let mut inboxes: Vec<(u8, Vec<(RemoteAddr, Vec<u8>)>)> =
            self.servers.iter().map(|(machine, _)| (*machine, Vec::new())).collect();
        for peer in self.peers.iter_mut() {
            let sent = peer.step(self.now);
            if let Some(server) = peer.server.take() {
                self.servers.push((Net::machine(peer), server));
                inboxes.push((Net::machine(peer), Vec::new()));
            }
            if let Some((target, packet)) = sent {
                let machine = if target.ip == [127, 0, 0, 1] { Net::machine(peer) } else { target.ip[3] };
                if let Some((_, inbox)) = inboxes.iter_mut().find(|(m, _)| *m == machine) {
                    inbox.push((peer.addr, packet));
                }
            }
        }
        let config = Config::default();
        for ((machine, server), (_, inbox)) in self.servers.iter_mut().zip(inboxes) {
            let (_, outbox) = server.tick(&config, self.now, inbox);
            for (to, packet) in outbox {
                if let Some(peer) = self.peers.iter_mut().find(|p| p.addr == to) {
                    let from = if Net::machine(peer) == *machine {
                        RemoteAddr::new([127, 0, 0, 1], 7156)
                    } else {
                        addr(*machine, 7156)
                    };
                    peer.inbox.push((from, packet));
                }
            }
        }
    }
}

#[test]
fn remotes_follow_the_next_host() {
    let config = Config::default();
    let joining = Config { remote_addr: addr(1, 7156), ..Config::default() };
    let (host, migration) =
        Clockwork::connect_as(config, ConnectionID::new(7), Board::default(), 0).with_server();
    let mut net = Net {
        peers: vec![
            Peer::new(host, addr(1, 5000)),
            Peer::new(Clockwork::connect_as(joining, ConnectionID::new(3), Board::default(), 0), addr(2, 5000)),
            Peer::new(Clockwork::connect_as(joining, ConnectionID::new(5), Board::default(), 0), addr(3, 5000)),
        ],
        servers: vec![(1, create_server(&config, migration, false, 0))],
        now: 0,
    };
    for peer in net.peers.iter_mut() {
        peer.wanted = 3;
    }
    for _ in 0..26 {
        net.round();
    }
    let orders: Vec<(u32, u8)> =
        net.peers[2].session.client.connections.iter().map(|c| (c.id().raw(), c.order())).collect();
    assert_eq!(orders, vec![(3, 0), (5, 1), (7, 255)]);
    let ticks = net.peers[1].session.client.state.ticks;
    assert!(ticks > 0);
    assert_eq!(net.peers[2].session.client.state.ticks, ticks);

    // The host and its server are taken away.
    net.peers.remove(0);
    net.servers.clear();
    for peer in net.peers.iter_mut() {
        peer.events.clear();
        peer.inbox.clear();
    }
    for _ in 0..60 {
        net.round();
    }
    assert_eq!(net.servers.len(), 1);
    assert_eq!(net.servers[0].0, 2);
    assert_eq!(net.servers[0].1.host_id, ConnectionID::new(3));
    assert_eq!(net.servers[0].1.remotes.len(), 2);
    let new_host = HostID::new(ConnectionID::new(3));
    assert_eq!(
        net.peers[0].events[0],
        Event::HostReconnect(RemoteAddr::new([127, 0, 0, 1], 7156), new_host, ConnectionID::new(3))
    );
    assert_eq!(net.peers[1].events[0], Event::HostReconnect(addr(2, 7156), new_host, ConnectionID::new(5)));
    for peer in net.peers.iter() {
        assert_eq!(count(&peer.events, |e| matches!(e, Event::HostReady(..))), 1);
        assert_eq!(count(&peer.events, |e| matches!(e, Event::RemoteLeft(..))), 1);
        assert_eq!(count(&peer.events, |e| matches!(e, Event::Error(..))), 0);
        assert_eq!(peer.session.client.host_id, new_host);
        assert_eq!(peer.session.client.local.tick, ClientTick::SendInput);
        assert_eq!(peer.session.client.connections.len(), 2);
        assert!(peer.session.client.state.ticks > ticks);
    }
    assert_eq!(net.peers[0].session.client.state.ticks, net.peers[1].session.client.state.ticks);
}
