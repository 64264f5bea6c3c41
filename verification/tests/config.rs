use stratland::clockwork::{Config, ConnectionID, HostID, RemoteAddr, RemoteConnection};

#[test]
fn default_config() {
    let config = Config::default();
    assert_eq!(config.low_tick_rate, 10);
    assert_eq!(config.high_tick_rate, 30);
    assert_eq!(config.packet_max_size, 1400);
    assert_eq!(config.protocol_header, [1, 2, 3, 4]);
    assert_eq!(config.server_addr, RemoteAddr::new([0, 0, 0, 0], 7156));
    assert_eq!(config.server_max_clients, 16);
    assert_eq!(config.remote_addr, RemoteAddr::new([127, 0, 0, 1], 7156));
    assert_eq!(config.remote_pending_threshold, 500);
    assert_eq!(config.remote_timeout_threshold, 1000);
    assert!(config.is_valid());
}

#[test]
fn config_needs_whole_milliseconds_for_each_packet() {
    assert!(!Config { high_tick_rate: 0, ..Config::default() }.is_valid());
    assert!(!Config { high_tick_rate: 1001, ..Config::default() }.is_valid());
    assert!(!Config { low_tick_rate: 0, ..Config::default() }.is_valid());
    assert!(Config { low_tick_rate: 1, high_tick_rate: 1000, ..Config::default() }.is_valid());
}

#[test]
fn migration_addresses_use_the_server_port() {
    let config = Config { server_addr: RemoteAddr::new([0, 0, 0, 0], 9000), ..Config::default() };
    assert_eq!(config.local_server_addr(), RemoteAddr::new([127, 0, 0, 1], 9000));
    assert_eq!(
        config.remote_host_addr(RemoteAddr::new([10, 1, 2, 3], 4444)),
        RemoteAddr::new([10, 1, 2, 3], 9000)
    );
}

#[test]
fn identifiers_compare_across_kinds() {
    let id = ConnectionID::new(5);
    let host = HostID::new(id);
    assert_eq!(id.raw(), 5);
    assert_eq!(host.raw(), 5);
    assert!(id.is_host(&host));
    assert!(host.is_connection(&id));
    assert!(!ConnectionID::new(6).is_host(&host));
    assert_eq!(ConnectionID::from(host), id);
}

#[test]
fn addresses_compare_by_octets_and_port() {
    let a = RemoteAddr::new([1, 2, 3, 4], 5);
    assert!(a.same(&RemoteAddr::new([1, 2, 3, 4], 5)));
    assert!(!a.same(&RemoteAddr::new([1, 2, 3, 9], 5)));
    assert!(!a.same(&RemoteAddr::new([1, 2, 3, 4], 6)));
}

#[test]
fn connection_setters() {
    let mut connection = RemoteConnection::new(ConnectionID::new(1), RemoteAddr::new([1, 2, 3, 4], 5), 6);
    connection.set_order(7);
    connection.set_address(RemoteAddr::new([4, 3, 2, 1], 9));
    assert_eq!(connection.id(), ConnectionID::new(1));
    assert_eq!(connection.order(), 7);
    assert_eq!(connection.address(), RemoteAddr::new([4, 3, 2, 1], 9));
}
