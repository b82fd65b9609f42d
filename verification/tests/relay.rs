use pulse::config::Endpoint;
use pulse::error::{PacketError, PulseError, WireError};
use pulse::packet::Packet;
use pulse::relay::{tick_interval_nanos, Relay, TICK_RATE};

fn ep(n: u32) -> Endpoint {
    Endpoint { ip: 0x7f00_0000 + n, port: 9000 + n as u16 }
}

fn voice(relay: &mut Relay, from: Endpoint, audio: &[u8]) {
    let bytes = Packet::Data(audio.to_vec()).encode();
    relay.on_datagram(&bytes, from).unwrap();
}

#[test]
fn new_relay_is_empty() {
    let mut relay = Relay::new();
    assert!(relay.clients().is_empty());
    assert!(relay.dispatch().is_empty());
}

#[test]
fn speakers_become_clients_once() {
    let mut relay = Relay::new();
    voice(&mut relay, ep(1), &[1]);
    voice(&mut relay, ep(2), &[2]);
    voice(&mut relay, ep(1), &[3]);
    assert_eq!(relay.clients(), &[ep(1), ep(2)]);
}

#[test]
fn audio_goes_to_everyone_but_its_sender() {
    let mut relay = Relay::new();
    voice(&mut relay, ep(1), &[10]);
    voice(&mut relay, ep(2), &[20]);
    voice(&mut relay, ep(3), &[30]);
    let out = relay.dispatch();
    let sends: Vec<(Endpoint, Vec<u8>)> = out.into_iter().map(|o| (o.to, o.bytes)).collect();
    let enc = |a: u8| Packet::Data(vec![a]).encode();
    assert_eq!(
        sends,
        vec![
            (ep(2), enc(10)),
            (ep(3), enc(10)),
            (ep(1), enc(20)),
            (ep(3), enc(20)),
            (ep(1), enc(30)),
            (ep(2), enc(30)),
        ]
    );
}

#[test]
fn lone_client_hears_nothing() {
    let mut relay = Relay::new();
    voice(&mut relay, ep(1), &[1, 2, 3]);
    assert!(relay.dispatch().is_empty());
}

#[test]
fn dispatch_drains_the_queue() {
    let mut relay = Relay::new();
    voice(&mut relay, ep(1), &[1]);
    voice(&mut relay, ep(2), &[2]);
    assert_eq!(relay.dispatch().len(), 2);
    assert!(relay.dispatch().is_empty());
    assert_eq!(relay.clients(), &[ep(1), ep(2)]);
}

#[test]
fn refused_datagrams_change_nothing() {
    let mut relay = Relay::new();
    voice(&mut relay, ep(1), &[1]);
    match relay.on_datagram(&Packet::Ping.encode(), ep(2)) {
        Err(PulseError::Packet(PacketError::Unexpected { lhs, rhs })) => {
            assert_eq!(lhs, "PacketKind(Data)");
            assert_eq!(rhs, "PacketKind(Ping)");
        }
        other => panic!("unexpected result: {:?}", other),
    }
    match relay.on_datagram(&[0, 0], ep(3)) {
        Err(PulseError::Json(WireError::UnexpectedEnd)) => {}
        other => panic!("unexpected result: {:?}", other),
    }
    assert_eq!(relay.clients(), &[ep(1)]);
    assert!(relay.dispatch().is_empty());
}

#[test]
fn disconnected_clients_are_forgotten() {
    let mut relay = Relay::new();
    for n in 1..=4 {
        voice(&mut relay, ep(n), &[n as u8]);
    }
    relay.dispatch();
    relay.disconnect(&[ep(2), ep(4), ep(2), ep(9)]);
    assert_eq!(relay.clients(), &[ep(1), ep(3)]);
    voice(&mut relay, ep(1), &[5]);
    let out = relay.dispatch();
    assert_eq!(out.len(), 1);
    assert_eq!(out[0].to, ep(3));
}

#[test]
fn disconnect_keeps_pending_audio() {
    let mut relay = Relay::new();
    voice(&mut relay, ep(1), &[1]);
    voice(&mut relay, ep(2), &[2]);
    relay.disconnect(&[ep(1)]);
    let out = relay.dispatch();
    assert_eq!(out.len(), 1);
    assert_eq!(out[0].to, ep(2));
    assert_eq!(out[0].bytes, Packet::Data(vec![1]).encode());
}

#[test]
fn tick_interval() {
    assert_eq!(TICK_RATE, 128);
    assert_eq!(tick_interval_nanos(TICK_RATE), 7_812_500);
    assert_eq!(tick_interval_nanos(512), 1_953_125);
    assert_eq!(tick_interval_nanos(1), 1_000_000_000);
}
