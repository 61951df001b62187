use raknet_core::error::DecodeError;
use raknet_core::packet::{PacketFlags, PacketInfo, PacketType, Reliability};
use raknet_core::protocol::PacketId;

#[test]
fn known_first_bytes_classify_as_offline_packets() {
    let cases: [(u8, PacketId); 11] = [
        (0x00, PacketId::ConnectedPing),
        (0x03, PacketId::ConnectedPong),
        (0x01, PacketId::UnconnectedPing),
        (0x1c, PacketId::UnconnectedPong),
        (0x05, PacketId::ConnectionRequest1),
        (0x06, PacketId::ConnectionReply1),
        (0x07, PacketId::ConnectionRequest2),
        (0x08, PacketId::ConnectionReply2),
        (0x09, PacketId::ConnectionRequest),
        (0x10, PacketId::ConnectionRequestAccepted),
        (0x19, PacketId::IncompatibleProtocolVersion),
    ];
    for (byte, id) in cases {
        let info = PacketInfo::from_bytes(&[byte]).unwrap();
        assert_eq!(info.packet_id(), Some(id));
        assert!(!info.is_encapsulated());
        assert_eq!(PacketId::from(byte), id);
        assert_eq!(id.to_u8(), byte);
    }
}

#[test]
fn unknown_bytes_map_to_the_sentinel() {
    assert_eq!(PacketId::from(0xee), PacketId::Unknown);
    assert_eq!(PacketId::Unknown.to_u8(), 0xff);
}

#[test]
fn ack_and_nak_envelopes_carry_no_identifier() {
    for byte in [0xc0u8, 0xa0, 0xe0, 0x40, 0x20] {
        let info = PacketInfo::from_bytes(&[byte]).unwrap();
        assert_eq!(info.packet_id(), None);
        assert!(info.is_encapsulated());
    }
}

#[test]
fn unreliable_envelope_identifier_sits_after_the_short_header() {
    // flags byte (offset 4) says unreliable: the inner id is byte 7
    let bytes: Vec<u8> = vec![0x80, 0, 0, 1, 0x00, 0, 8, 0x09];
    let info = PacketInfo::from_bytes(&bytes).unwrap();
    assert_eq!(info.packet_id(), Some(PacketId::ConnectionRequest));
    assert!(info.is_encapsulated());
}

#[test]
fn reliable_envelope_identifier_sits_after_the_long_header() {
    let bytes: Vec<u8> = vec![0x80, 0, 0, 1, 2 << 5, 0, 8, 0, 0, 9, 0x09];
    let info = PacketInfo::from_bytes(&bytes).unwrap();
    assert_eq!(info.packet_id(), Some(PacketId::ConnectionRequest));
    assert!(info.is_encapsulated());
    // an unknown inner byte is the sentinel, not an error
    let bytes2: Vec<u8> = vec![0x80, 0, 0, 1, 0x00, 0, 8, 0xee];
    let info2 = PacketInfo::from_bytes(&bytes2).unwrap();
    assert_eq!(info2.packet_id(), Some(PacketId::Unknown));
}

#[test]
fn truncated_envelopes_cannot_be_classified() {
    assert_eq!(PacketInfo::from_bytes(&[]).unwrap_err(), DecodeError::OutOfBounds);
    assert_eq!(PacketInfo::from_bytes(&[0x80]).unwrap_err(), DecodeError::OutOfBounds);
    assert_eq!(
        PacketInfo::from_bytes(&[0x80, 0, 0, 1, 0x00, 0, 8]).unwrap_err(),
        DecodeError::OutOfBounds
    );
    assert_eq!(
        PacketInfo::from_bytes(&[0x80, 0, 0, 1, 2 << 5, 0, 8, 0, 0, 9]).unwrap_err(),
        DecodeError::OutOfBounds
    );
}

#[test]
fn classifier_is_safe_on_arbitrary_short_input() {
    let patterns: [u8; 5] = [0x00, 0x05, 0x80, 0xc0, 0xff];
    for len in 0..=20usize {
        for p in patterns {
            let mut bytes: Vec<u8> = Vec::new();
            let mut x: u8 = p;
            for _ in 0..len {
                bytes.push(x);
                x = x.wrapping_mul(37).wrapping_add(3);
            }
            let _ = PacketInfo::from_bytes(&bytes);
        }
    }
}

#[test]
fn packet_type_flags_round_trip() {
    for byte in [0x00u8, 0x80, 0xc0, 0xfc, 0x54, 0xa8] {
        let t = PacketType::from_u8(byte);
        assert_eq!(t.to_u8(), byte & 0xfc);
        assert_eq!(PacketType::from_u8(t.to_u8()), t);
    }
    let t = PacketType::from_u8(0xc0);
    assert!(t.is_connected_to_peer && t.is_ack && !t.is_nak);
}

#[test]
fn packet_flags_round_trip() {
    for byte in [0x00u8, 0x10, 0x20, 0x30, 0x70, 0xf0, 0xff] {
        let f = PacketFlags::from_u8(byte).unwrap();
        assert_eq!(f.to_u8(), byte & 0xf0);
        assert_eq!(PacketFlags::from_u8(f.to_u8()).unwrap(), f);
    }
    let f = PacketFlags::from_u8(0x70).unwrap();
    assert_eq!(f.reliability, Reliability::ReliableOrdered);
    assert!(f.has_split_packet);
}

#[test]
fn reliability_try_from_covers_the_three_bit_range() {
    assert_eq!(Reliability::try_from(0), Ok(Reliability::Unreliable));
    assert_eq!(Reliability::try_from(3), Ok(Reliability::ReliableOrdered));
    assert_eq!(Reliability::try_from(7), Ok(Reliability::ReliableOrderedAck));
    assert_eq!(Reliability::try_from(8), Err(()));
    assert_eq!(Reliability::try_from(255), Err(()));
}
