//! A session as the application holds it: one receive and one send for each
//! of its ticks, the events in between, and the change of host when the
//! host is lost.
//!
//! The session opens no socket and starts no server. It takes the packets
//! that arrived and gives the packet to send; where this participant is to
//! host, it says so, and the application reports whether its server runs.

use std::collections::VecDeque;
use vstd::prelude::*;
use crate::clockwork::client::{Answer, ClientModel, ClockworkClient, Migration, NetworkStatus};
use crate::clockwork::client_remote::{ClientRemote, HostContent};
use crate::clockwork::config::Config;
use crate::clockwork::connection::RemoteConnection;
use crate::clockwork::event::{Error, Event};
use crate::clockwork::ids::{ConnectionID, HostID};
use crate::clockwork::server::{ClockworkServer, Datagram, ServerModel};
use crate::clockwork::tick::ClientTick;
use crate::clockwork::traits::{Input, Options, State};

verus! {

/// Which half of a tick comes next.
#[derive(Debug, PartialEq, Eq, Structural, Copy, Clone)]
pub enum Mode {
    Receive,
    Send,
}

/// What `try_recv` hands to the application.
pub enum Polled {
    /// An event of the session.
    Event(Event),
    /// The host is lost and this participant is next in line. The
    /// application starts a server from the snapshot and reports with
    /// `promoted` whether it runs; the identifiers are those of the new host
    /// and of this participant.
    Promote(Migration, HostID, ConnectionID),
}

/// A `Migration` with its connections as a sequence.
pub struct MigrationModel {
    pub previous_host: HostID,
    pub local_host: ConnectionID,
    pub connection: Seq<(ConnectionID, RemoteConnection)>,
}

impl View for Migration {
    type V = MigrationModel;

    open spec fn view(&self) -> MigrationModel {
        MigrationModel {
            previous_host: self.previous_host,
            local_host: self.local_host,
            connection: self.connection@,
        }
    }
}

/// A `Polled` with the snapshot as a model.
pub enum PolledModel {
    Event(Event),
    Promote(MigrationModel, HostID, ConnectionID),
}

impl View for Polled {
    type V = PolledModel;

    open spec fn view(&self) -> PolledModel {
        match self {
            Polled::Event(event) => PolledModel::Event(*event),
            Polled::Promote(migration, host, local) => PolledModel::Promote(
                migration@,
                *host,
                *local,
            ),
        }
    }
}

/// A server / client lockstep protocol implementation with automatic host
/// migration.
pub struct Clockwork<S, O, I> {
    /// Network configuration.
    pub config: Config,
    /// The clockwork client.
    pub client: ClockworkClient<S, O, I>,
    /// Whether this participant runs a server.
    pub hosting: bool,
    /// Internal queue of the last received events.
    pub events: VecDeque<Event>,
    /// Internal mode toggle for event queueing.
    pub mode: Mode,
}

/// A session without the application's state, its client and queue as
/// models.
pub struct SessionModel<O, I> {
    pub config: Config,
    pub client: ClientModel<O, I>,
    pub hosting: bool,
    pub events: Seq<Event>,
    pub mode: Mode,
}

impl<S, O, I> View for Clockwork<S, O, I> {
    type V = SessionModel<O, I>;

    open spec fn view(&self) -> SessionModel<O, I> {
        SessionModel {
            config: self.config,
            client: self.client@,
            hosting: self.hosting,
            events: self.events@,
            mode: self.mode,
        }
    }
}

/// The snapshot of a client for a server that takes the session over.
pub open spec fn snapshot<O, I>(client: ClientModel<O, I>) -> MigrationModel {
    MigrationModel {
        previous_host: client.host_id,
        local_host: client.local.connection.id,
        connection: Seq::new(
            client.connections.len(),
            |k: int| (client.connections[k].id, client.connections[k]),
        ),
    }
}

/// A client that starts over with a new host at `now`.
pub open spec fn reconnected<O, I>(client: ClientModel<O, I>, now: u64) -> ClientModel<O, I> {
    ClientModel {
        network_status: NetworkStatus::Reconnecting,
        local: ClientRemote {
            tick: ClientTick::WaitForServer,
            last_receive_time: now,
            ..client.local
        },
        ..client
    }
}

impl<O: Options, I: Input> SessionModel<O, I> {
    /// The session after the receive half of a tick: in `Receive` mode the
    /// client takes the inbox, the packet at each index holding the content
    /// at that index and the state answering as given; its events, or the
    /// timeout of its host, join the queue, and the send half comes next. In
    /// `Send` mode nothing happens.
    pub open spec fn gathered(self, now: u64, inbox: Seq<Datagram>, contents: Seq<HostContent<O, I>>, answers: Seq<Answer>) -> SessionModel<O, I> {
        if self.mode != Mode::Receive {
            self
        } else if self.client.lost(self.config, now) {
            SessionModel {
                client: self.client.disconnected(),
                events: self.events.push(Event::Error(Error::RemoteTimeout)),
                mode: Mode::Send,
                ..self
            }
        } else {
            let (client, events) = self.client.received(self.config, inbox, contents, answers, now);
            SessionModel { client, events: self.events + events, mode: Mode::Send, ..self }
        }
    }

    /// Whether the session reads the packets of the inbox as `contents`
    /// where it takes them in.
    pub open spec fn reads(self, now: u64, inbox: Seq<Datagram>, contents: Seq<HostContent<O, I>>) -> bool {
        self.mode == Mode::Receive && !self.client.lost(self.config, now) ==> self.client.reads(
            self.config,
            inbox,
            contents,
            now,
        )
    }

    /// The session after the event at the front of its queue was handed
    /// out, and what was handed out.
    ///
    /// A timeout of the host makes the client pick the next host. Where that
    /// is another remote, the session turns to the server port at that
    /// remote's address and starts over, and the event is a reconnect. Where
    /// it is this participant, the application is asked to start a server.
    /// Where no remote is left, the timeout is handed out as it is.
    pub open spec fn polled(self, now: u64) -> (SessionModel<O, I>, Option<PolledModel>) {
        if self.events.len() == 0 {
            (self, None)
        } else if self.events[0] == Event::Error(Error::RemoteTimeout) {
            let rest = self.events.skip(1);
            let (client, next) = self.client.migrated();
            match next {
                Some((None, host_id, local_id)) => (
                    SessionModel { client, events: rest, ..self },
                    Some(PolledModel::Promote(snapshot(client), host_id, local_id)),
                ),
                Some((Some(address), host_id, local_id)) => {
                    let remote_addr = self.config.remote_host(address);
                    (
                        SessionModel {
                            client: reconnected(client, now),
                            config: Config { remote_addr, ..self.config },
                            events: rest,
                            ..self
                        },
                        Some(PolledModel::Event(Event::HostReconnect(remote_addr, host_id, local_id))),
                    )
                },
                None => (
                    SessionModel { client, events: rest, ..self },
                    Some(PolledModel::Event(Event::Error(Error::RemoteTimeout))),
                ),
            }
        } else {
            (
                SessionModel { events: self.events.skip(1), ..self },
                Some(PolledModel::Event(self.events[0])),
            )
        }
    }

    /// The session after the application has reported on the server that it
    /// was asked to start, and the event that stands for the outcome. With a
    /// server running, the session turns to it and starts over. Without one,
    /// the host's timeout stands.
    pub open spec fn promoted(self, started: bool, host_id: HostID, local_id: ConnectionID, now: u64) -> (SessionModel<O, I>, Event) {
        if started {
            (
                SessionModel {
                    hosting: true,
                    config: Config { remote_addr: self.config.local_server(), ..self.config },
                    client: reconnected(self.client, now),
                    ..self
                },
                Event::HostReconnect(self.config.local_server(), host_id, local_id),
            )
        } else {
            (self, Event::Error(Error::RemoteTimeout))
        }
    }

}

/// The server that a participant starts: a new one for a new session, or one
/// seeded with the connections of the session that it takes over.
pub fn create_server<O: Options, I: Input>(config: &Config, migration: Migration, was_started: bool, now: u64) -> (server: ClockworkServer<O, I>)
    ensures
        server.wf(),
        server@ == (ServerModel::<O, I> {
            started: was_started,
            sequence: 0,
            remotes: crate::clockwork::server::migrated(
                Seq::empty(),
                migration.previous_host,
                migration.connection@,
                migration.connection@.len() as int,
                now,
            ),
            host_id: migration.local_host,
            last_tick_time: now,
            tick_buffer: 0,
            ticks_per_sequence: 1,
        }),
{
    ClockworkServer::<O, I>::new(config, migration.local_host, was_started, now).with_migrated_states(
        migration.previous_host,
        migration.connection,
        now,
    )
}

impl<S, O: Options, I: Input> Clockwork<S, O, I> {
    /// The client's roster stands by ascending identifier.
    pub open spec fn wf(&self) -> bool {
        self.client.wf()
    }

    /// A session that connects under a random identifier to the host at the
    /// configured address.
    pub fn connect(config: Config, state: S, now: u64) -> (r: Self)
        ensures
            r.wf(),
            r@ == (SessionModel {
                config,
                client: r.client@,
                hosting: false,
                events: Seq::empty(),
                mode: Mode::Receive,
            }),
            r.client.state == state,
            r.client@ == ClockworkClient::<S, O, I>::with_id_model(
                config,
                r.client.local.connection.id,
                now,
            ),
    {
        Self {
            config,
            client: ClockworkClient::new(&config, state, now),
            hosting: false,
            events: VecDeque::new(),
            mode: Mode::Receive,
        }
    }

    /// A session that connects as `id` to the host at the configured
    /// address.
    pub fn connect_as(config: Config, id: ConnectionID, state: S, now: u64) -> (r: Self)
        ensures
            r.wf(),
            r.client.state == state,
            r@ == (SessionModel {
                config,
                client: ClockworkClient::<S, O, I>::with_id_model(config, id, now),
                hosting: false,
                events: Seq::empty(),
                mode: Mode::Receive,
            }),
    {
        Self {
            config,
            client: ClockworkClient::with_id(&config, id, state, now),
            hosting: false,
            events: VecDeque::new(),
            mode: Mode::Receive,
        }
    }

    /// The application's state.
    pub fn state(&mut self) -> (r: &mut S)
        ensures
            *r == old(self).client.state,
            *final(self) == (Clockwork {
                client: ClockworkClient { state: *final(r), ..old(self).client },
                ..*old(self)
            }),
    {
        self.client.state()
    }

    /// Stages the options that this participant proposes.
    pub fn set_options(&mut self, options: O)
        ensures
            final(self).client.state == old(self).client.state,
            final(self)@ == (SessionModel {
                client: ClientModel {
                    local: ClientRemote {
                        options: Some(
                            crate::clockwork::options::RemoteOptions {
                                id: old(self).client.local.connection.id,
                                data: options,
                            },
                        ),
                        ..old(self).client.local
                    },
                    ..old(self).client@
                },
                ..old(self)@
            }),
    {
        self.client.set_options(options);
    }

    /// Adds an input to the queue of inputs that wait to be confirmed.
    pub fn queue_input(&mut self, input: I)
        ensures
            final(self).client.state == old(self).client.state,
            final(self)@ == (SessionModel {
                client: ClientModel {
                    input_queue: old(self).client.input_queue@.push(input),
                    ..old(self).client@
                },
                ..old(self)@
            }),
    {
        self.client.queue_input(input);
    }

    /// Whether the next `try_recv` takes packets in.
    pub fn receiving(&self) -> (r: bool)
        ensures
            r == (self.mode == Mode::Receive),
    {
        self.mode == Mode::Receive
    }

    /// Hands out the next event. The first call after a send takes the
    /// packets that arrived until `now`, a time in milliseconds, before it
    /// does so; later calls leave the inbox alone.
    ///
    /// The payloads are read with the codecs of the application, and the
    /// application's state is asked whether it is ready: the session is
    /// after the call what it is for some reading of the packets and some
    /// answers of the state.
    pub fn try_recv<R>(&mut self, now: u64, inbox: Vec<Datagram>, refs: &mut R) -> (r: Option<Polled>) where
        S: State<O, I, R>,

        requires
            old(self).wf(),
        ensures
            final(self).wf(),
            exists|contents: Seq<HostContent<O, I>>, answers: Seq<Answer>|
                old(self)@.reads(now, inbox@, contents) && (#[trigger] old(self)@.gathered(
                    now,
                    inbox@,
                    contents,
                    answers,
                )).polled(now) == (
                    final(self)@,
                    match r {
                        Some(polled) => Some(polled@),
                        None => None,
                    },
                ),
    {
        let ghost mut contents: Seq<HostContent<O, I>> = Seq::empty();
        let ghost mut answers: Seq<Answer> = Seq::empty();
        if self.mode == Mode::Receive {
            let config = self.config;
            let ghost before = self.client@;
            match self.client.receive::<R>(&config, now, inbox, refs) {
                Ok(events) => {
                    proof {
                        let (read, answered) = choose|
                            read: Seq<HostContent<O, I>>,
                            answered: Seq<Answer>,
                        |
                            before.reads(config, inbox@, read, now) && #[trigger] before.received(
                                config,
                                inbox@,
                                read,
                                answered,
                                now,
                            ) == (self.client@, events@);
                        contents = read;
                        answers = answered;
                    }
                    let ghost queued = self.events@;
                    let ghost all = events@;
                    let ghost taken = self@;
                    assert(all.take(0) =~= Seq::<Event>::empty());
                    assert(queued + Seq::<Event>::empty() =~= queued);
                    for event in it: events
                        invariant
                            it.seq() == all,
                            self.events@ == queued + all.take(it.index() as int),
                            self@ == (SessionModel { events: self.events@, ..taken }),
                            self.wf(),
                    {
                        self.events.push_back(event);
                        assert(self.events@ =~= queued + all.take(it.index() + 1));
                    }
                    assert(all.take(all.len() as int) =~= all);
                },
                Err(error) => {
                    self.events.push_back(Event::Error(error));
                },
            }
            self.mode = Mode::Send;
        }
        let ghost gathered = old(self)@.gathered(now, inbox@, contents, answers);
        assert(self@ == gathered);
        match self.events.pop_front() {
            Some(event) => {
                assert(self.events@ =~= gathered.events.skip(1));
                match event {
                    // In case of a timeout, get the next host in line
                    Event::Error(Error::RemoteTimeout) => {
                        match self.client.migrate() {
                            // If it's us, a local server is to be started
                            Some((None, host_id, local_id)) => {
                                Some(Polled::Promote(self.client.migration(), host_id, local_id))
                            },
                            // If it's another client, try to connect to that one instead
                            Some((Some(address), host_id, local_id)) => {
                                self.config.remote_addr = self.config.remote_host_addr(address);
                                self.client.reconnect(now);
                                Some(
                                    Polled::Event(
                                        Event::HostReconnect(self.config.remote_addr, host_id, local_id),
                                    ),
                                )
                            },
                            // If there are no further hosts left, exit
                            None => Some(Polled::Event(event)),
                        }
                    },
                    _ => Some(Polled::Event(event)),
                }
            },
            None => None,
        }
    }

    /// Takes the application's report on the server that it was asked to
    /// start, and gives the event that stands for the outcome.
    pub fn promoted(&mut self, started: bool, host_id: HostID, local_id: ConnectionID, now: u64) -> (event: Event)
        ensures
            final(self).client.state == old(self).client.state,
            (final(self)@, event) == old(self)@.promoted(started, host_id, local_id, now),
            old(self).wf() ==> final(self).wf(),
    {
        if started {
            self.hosting = true;
            self.config.remote_addr = self.config.local_server_addr();
            self.client.reconnect(now);
            Event::HostReconnect(self.config.remote_addr, host_id, local_id)
        } else {
            Event::Error(Error::RemoteTimeout)
        }
    }

    /// Gives the packet to send to the host, if there is one, and the rate,
    /// in packets per second, at which to tick on. Only the first call after
    /// a receive gives a packet, and only where the client is not
    /// disconnected; the receive half comes next after it.
    pub fn send(&mut self) -> (r: (u64, Option<Vec<u8>>))
        ensures
            r.0 == old(self).config.high_tick_rate,
            final(self).client == old(self).client,
            final(self)@ == (SessionModel { mode: Mode::Receive, ..old(self)@ }),
            r.1 is Some <==> old(self).mode == Mode::Send && old(self).client.network_status
                != NetworkStatus::Disconnected,
            r.1 matches Some(packet) ==> exists|options: Option<Seq<u8>>, records: Option<Seq<u8>>|
                packet@ == crate::clockwork::wire::header(
                    old(self).config.protocol_header@,
                    old(self).client.local.connection.id@,
                    old(self).client.local.tick.code(),
                ) + #[trigger] old(self).client.local.payload(options, records),
    {
        if self.mode == Mode::Send {
            self.mode = Mode::Receive;
            self.client.send(&self.config)
        } else {
            (self.config.high_tick_rate, None)
        }
    }

    /// Ends hosting. Says whether a server of this participant was running
    /// and is to be stopped.
    pub fn disconnect(&mut self) -> (stop: bool)
        ensures
            stop == old(self).hosting,
            final(self).client == old(self).client,
            final(self)@ == (SessionModel { hosting: false, ..old(self)@ }),
            old(self).wf() ==> final(self).wf(),
    {
        let stop = self.hosting;
        self.hosting = false;
        stop
    }

    /// Makes this participant the host of a new session. Gives the snapshot
    /// from which the application starts its server.
    pub fn with_server(self) -> (r: (Self, Migration))
        ensures
            r.0.client == self.client,
            r.0@ == (SessionModel { hosting: true, ..self@ }),
            r.1@ == snapshot(self.client@),
            self.wf() ==> r.0.wf(),
    {
        let migration = self.client.migration();
        let mut session = self;
        session.hosting = true;
        (session, migration)
    }
}

} // verus!
