use pulse::client;
use pulse::config::{default_addr, Config, Endpoint, DEFAULT_PORT, LOCALHOST};
use pulse::devices::CpalError;
use pulse::error::{HandshakeError, PacketError, PulseError, SyncError, WireError};
use pulse::server;

#[test]
fn try_send_failures() {
    assert_eq!(SyncError::from_try_send(true), SyncError::Disconnected);
    assert_eq!(SyncError::from_try_send(false), SyncError::TrySend);
}

#[test]
fn try_recv_failures() {
    assert_eq!(SyncError::from_try_recv(true), SyncError::Disconnected);
    assert_eq!(SyncError::from_try_recv(false), SyncError::TryRecv);
}

#[test]
fn conversions() {
    assert_eq!(
        PacketError::from(HandshakeError::InvalidType),
        PacketError::Handshake(HandshakeError::InvalidType)
    );
    assert!(matches!(PulseError::from(SyncError::Recv), PulseError::Sync(SyncError::Recv)));
    assert!(matches!(
        PulseError::from(WireError::InvalidVariant(3)),
        PulseError::Json(WireError::InvalidVariant(3))
    ));
    assert!(matches!(
        PulseError::from(PacketError::Handshake(HandshakeError::Unknown)),
        PulseError::Packet(PacketError::Handshake(HandshakeError::Unknown))
    ));
    let io = std::io::Error::new(std::io::ErrorKind::TimedOut, "slow");
    assert!(matches!(PulseError::from(io), PulseError::Io(e) if e.kind() == std::io::ErrorKind::TimedOut));
    assert!(matches!(
        client::Error::from(CpalError::BuildStream),
        client::Error::Cpal(CpalError::BuildStream)
    ));
    assert!(matches!(
        client::Error::from(PulseError::Unknown),
        client::Error::Pulse(PulseError::Unknown)
    ));
    assert!(matches!(
        server::Error::from(PulseError::Sync(SyncError::Send)),
        server::Error::Pulse(PulseError::Sync(SyncError::Send))
    ));
}

#[test]
fn panics() {
    match PulseError::from_panic(Some("boom".to_string())) {
        PulseError::Misc(m) => assert_eq!(m, "boom"),
        other => panic!("unexpected: {:?}", other),
    }
    assert!(matches!(PulseError::from_panic(None), PulseError::Unknown));
}

#[test]
fn default_address_is_localhost_8080() {
    assert_eq!(default_addr(), Endpoint { ip: 0x7f00_0001, port: 8080 });
    assert_eq!((LOCALHOST, DEFAULT_PORT), (0x7f00_0001, 8080));
}

#[test]
fn tick_rate_is_configurable() {
    let cfg = Config::new(Endpoint { ip: 1, port: 2 }, Endpoint { ip: 3, port: 4 });
    assert_eq!(cfg.tick_rate(), 128);
    let faster = cfg.with_tick_rate(512).unwrap();
    assert_eq!(faster.tick_rate(), 512);
    assert_eq!(faster.local_addr(), cfg.local_addr());
    assert_eq!(faster.remote_addr(), cfg.remote_addr());
    assert!(cfg.with_tick_rate(0).is_none());
}

#[test]
fn config_keeps_addresses() {
    let local = Endpoint { ip: 1, port: 2 };
    let remote = Endpoint { ip: 3, port: 4 };
    let cfg = Config::new(local, remote);
    assert_eq!(cfg.local_addr(), local);
    assert_eq!(cfg.remote_addr(), remote);
}
