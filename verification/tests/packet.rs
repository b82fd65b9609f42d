use pulse::error::{PacketError, PulseError, WireError};
use pulse::packet::{init_buf, recv, uninit_buf, Packet, PacketKind, PACKET_SIZE};

#[test]
fn ping_encodes_as_variant_index() {
    assert_eq!(Packet::Ping.encode(), vec![1, 0, 0, 0]);
}

#[test]
fn data_encodes_with_length_prefix() {
    let bytes = Packet::Data(vec![9, 8]).encode();
    assert_eq!(bytes, vec![0, 0, 0, 0, 2, 0, 0, 0, 0, 0, 0, 0, 9, 8]);
}

#[test]
fn empty_data_encodes_with_zero_length() {
    let bytes = Packet::Data(Vec::new()).encode();
    assert_eq!(bytes, vec![0; 12]);
}

#[test]
fn encoding_matches_bincode_layout() {
    let audio: Vec<u8> = (0..=255u8).collect();
    let expected = bincode::serialize(&(0u32, serde_bytes::Bytes::new(&audio))).unwrap();
    assert_eq!(Packet::Data(audio).encode(), expected);
    assert_eq!(Packet::Ping.encode(), bincode::serialize(&1u32).unwrap());
}

#[test]
fn long_data_length_prefix() {
    let audio = vec![3u8; 300];
    let bytes = Packet::Data(audio.clone()).encode();
    assert_eq!(&bytes[4..12], &[44, 1, 0, 0, 0, 0, 0, 0]);
    assert_eq!(&bytes[12..], audio.as_slice());
}

#[test]
fn decode_reads_back_encoded_packets() {
    let p = Packet::Data(vec![1, 2, 3, 4, 5]);
    assert_eq!(Packet::decode(&p.encode()), Ok(p));
    assert_eq!(Packet::decode(&Packet::Ping.encode()), Ok(Packet::Ping));
}

#[test]
fn decode_ignores_trailing_bytes() {
    let mut bytes = Packet::Data(vec![42]).encode();
    bytes.extend_from_slice(&[7, 7, 7]);
    assert_eq!(Packet::decode(&bytes), Ok(Packet::Data(vec![42])));
    let mut ping = Packet::Ping.encode();
    ping.push(0xff);
    assert_eq!(Packet::decode(&ping), Ok(Packet::Ping));
}

#[test]
fn decode_short_tag() {
    assert_eq!(Packet::decode(&[]), Err(WireError::UnexpectedEnd));
    assert_eq!(Packet::decode(&[0, 0, 0]), Err(WireError::UnexpectedEnd));
}

#[test]
fn decode_short_length() {
    assert_eq!(Packet::decode(&[0, 0, 0, 0, 1, 0, 0]), Err(WireError::UnexpectedEnd));
}

#[test]
fn decode_short_body() {
    let bytes = [0, 0, 0, 0, 5, 0, 0, 0, 0, 0, 0, 0, 1, 2];
    assert_eq!(Packet::decode(&bytes), Err(WireError::TruncatedBody));
}

#[test]
fn decode_huge_length() {
    let bytes = [0, 0, 0, 0, 0xff, 0xff, 0xff, 0xff, 0xff, 0xff, 0xff, 0xff, 1];
    let expected = if (u64::MAX as u128) > (usize::MAX as u128) {
        WireError::SizeTooLarge(u64::MAX)
    } else {
        WireError::TruncatedBody
    };
    assert_eq!(Packet::decode(&bytes), Err(expected));
}

#[test]
fn decode_unknown_variant() {
    assert_eq!(Packet::decode(&[2, 0, 0, 0]), Err(WireError::InvalidVariant(2)));
    assert_eq!(
        Packet::decode(&[0, 1, 0, 0, 9]),
        Err(WireError::InvalidVariant(256))
    );
}

#[test]
fn recv_accepts_expected_kind() {
    let bytes = Packet::Data(vec![5, 6]).encode();
    match recv(&bytes, PacketKind::data_only()) {
        Ok(p) => assert_eq!(p, Packet::Data(vec![5, 6])),
        Err(e) => panic!("refused: {:?}", e),
    }
    match recv(&Packet::Ping.encode(), PacketKind::all()) {
        Ok(p) => assert_eq!(p, Packet::Ping),
        Err(e) => panic!("refused: {:?}", e),
    }
}

#[test]
fn recv_refuses_unexpected_kind() {
    match recv(&Packet::Ping.encode(), PacketKind::data_only()) {
        Err(PulseError::Packet(PacketError::Unexpected { lhs, rhs })) => {
            assert_eq!(lhs, "PacketKind(Data)");
            assert_eq!(rhs, "PacketKind(Ping)");
        }
        other => panic!("unexpected result: {:?}", other),
    }
}

#[test]
fn recv_with_no_kind_refuses_everything() {
    for bytes in [Packet::Ping.encode(), Packet::Data(vec![1]).encode()] {
        match recv(&bytes, PacketKind::empty()) {
            Err(PulseError::Packet(PacketError::Unexpected { lhs, .. })) => {
                assert_eq!(lhs, "PacketKind(0x0)");
            }
            other => panic!("unexpected result: {:?}", other),
        }
    }
}

#[test]
fn recv_reports_malformed_bytes() {
    match recv(&[9, 0, 0, 0], PacketKind::all()) {
        Err(PulseError::Json(WireError::InvalidVariant(9))) => {}
        other => panic!("unexpected result: {:?}", other),
    }
    match recv(&[0, 0], PacketKind::all()) {
        Err(PulseError::Json(WireError::UnexpectedEnd)) => {}
        other => panic!("unexpected result: {:?}", other),
    }
}

#[test]
fn kinds_of_packets() {
    assert_eq!(Packet::Ping.kind(), PacketKind::ping_only());
    assert_eq!(Packet::Data(vec![]).kind(), PacketKind::data_only());
}

#[test]
fn kind_set_operations() {
    let all = PacketKind::all();
    let data = PacketKind::data_only();
    let ping = PacketKind::ping_only();
    let none = PacketKind::empty();
    assert!(all.contains(data) && all.contains(ping) && all.contains(none));
    assert!(!data.contains(ping) && !ping.contains(data));
    assert!(data.contains(none) && none.contains(none));
    assert!(!none.contains(data));
    assert_eq!(data.union(ping), all);
    assert!(none.is_empty() && !data.is_empty());
    assert_eq!((none.bits(), data.bits(), ping.bits(), all.bits()), (0, 1, 2, 3));
    assert_eq!(PacketKind::from_bits(3), Some(all));
    assert_eq!(PacketKind::from_bits(2), Some(ping));
    assert_eq!(PacketKind::from_bits(4), None);
}

#[test]
fn kind_names() {
    assert_eq!(PacketKind::all().name(), "PacketKind(Data | Ping)");
    assert_eq!(PacketKind::data_only().name(), "PacketKind(Data)");
    assert_eq!(PacketKind::ping_only().name(), "PacketKind(Ping)");
    assert_eq!(PacketKind::empty().name(), "PacketKind(0x0)");
}

#[test]
fn unexpected_names_expected_then_found() {
    let e = PacketError::unexpected(PacketKind::ping_only(), PacketKind::data_only());
    assert_eq!(
        e,
        PacketError::Unexpected {
            lhs: "PacketKind(Data)".to_string(),
            rhs: "PacketKind(Ping)".to_string()
        }
    );
}

#[test]
fn buffers() {
    let buf = init_buf();
    assert_eq!(buf.len(), PACKET_SIZE);
    assert!(buf.iter().all(|&b| b == 0));
    let data = [1u8, 2, 3, 4];
    assert_eq!(uninit_buf(&data, 2), &[1, 2]);
    assert_eq!(uninit_buf(&data, 0), &[] as &[u8]);
    assert_eq!(uninit_buf(&data, 4), &data);
}
