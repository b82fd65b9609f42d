use pulse::client;
use pulse::devices::CpalError;
use pulse::error::{HandshakeError, PacketError, PulseError, SyncError, WireError};
use pulse::packet::PacketKind;
use pulse::server;

#[test]
fn panic_messages() {
    assert_eq!(PulseError::from_panic(Some("boom".to_string())).message(), "Misc: boom");
    assert_eq!(
        PulseError::from_panic(None).message(),
        "Unknown: An unexpected error has ocurred"
    );
}

#[test]
fn channel_messages_match_their_sync_error() {
    for s in [
        SyncError::Send,
        SyncError::TrySend,
        SyncError::Recv,
        SyncError::TryRecv,
        SyncError::Disconnected,
    ] {
        assert_eq!(PulseError::from(s).message(), s.message());
    }
    assert_eq!(SyncError::Recv.message(), "Recv");
    assert_eq!(SyncError::from_try_send(true).message(), "Disconnected");
    assert_eq!(
        server::Error::from(PulseError::from(SyncError::Recv)).message(),
        "Recv"
    );
}

#[test]
fn packet_messages() {
    assert_eq!(
        PacketError::from(HandshakeError::InvalidContent).message(),
        "Handshake(InvalidContent)"
    );
    let e = PacketError::unexpected(PacketKind::ping_only(), PacketKind::data_only());
    assert_eq!(
        e.message(),
        "Expected \"PacketKind(Data)\", found \"PacketKind(Ping)\""
    );
    let odd = PacketError::Unexpected { lhs: "a\"b".to_string(), rhs: "\n".to_string() };
    assert_eq!(odd.message(), format!("Expected {:?}, found {:?}", "a\"b", "\n"));
}

#[test]
fn wire_messages() {
    assert_eq!(
        WireError::UnexpectedEnd.message(),
        "io error: unexpected end of file"
    );
    assert_eq!(
        WireError::InvalidVariant(2).message(),
        "invalid value: integer `2`, expected variant index 0 <= i < 2"
    );
    assert_eq!(
        PulseError::Json(WireError::InvalidVariant(4_294_967_295)).message(),
        "invalid value: integer `4294967295`, expected variant index 0 <= i < 2"
    );
    assert_eq!(
        WireError::InvalidVariant(10).message(),
        "invalid value: integer `10`, expected variant index 0 <= i < 2"
    );
}

#[test]
fn short_body_message() {
    assert_eq!(WireError::TruncatedBody.message(), "io error: ");
    let body = [5u8, 0, 0, 0, 0, 0, 0, 0, 1, 2];
    let original = bincode::deserialize::<serde_bytes::ByteBuf>(&body).unwrap_err();
    assert_eq!(WireError::TruncatedBody.message(), original.to_string());
    let short_tag = bincode::deserialize::<u32>(&[0u8, 0]).unwrap_err();
    assert_eq!(WireError::UnexpectedEnd.message(), short_tag.to_string());
}

#[test]
fn size_too_large_message() {
    assert_eq!(
        WireError::SizeTooLarge(12).message(),
        format!("Invalid size 12: sizes must fit in a usize (0 to {})", usize::MAX)
    );
}

#[test]
fn io_messages_are_the_systems() {
    let io = std::io::Error::new(std::io::ErrorKind::Other, "disk on fire");
    assert_eq!(PulseError::Io(io).message(), "disk on fire");
}

#[test]
fn wrapped_messages() {
    assert_eq!(client::Error::Cpal(CpalError::InputUnavailable).message(), "InputUnavailable");
    assert_eq!(
        client::Error::Pulse(PulseError::Misc("x".to_string())).message(),
        "Misc: x"
    );
    assert_eq!(CpalError::HostUnavailable.message(), "HostUnavailable");
}
