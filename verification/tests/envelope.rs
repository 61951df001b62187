use raknet_core::envelope::{Envelope, EnvelopeBody};
use raknet_core::error::DecodeError;
use raknet_core::packet::{PacketFlags, PacketType, Reliability, SequenceNumberRange};

fn header(connected: bool, ack: bool, nak: bool) -> PacketType {
    PacketType {
        is_connected_to_peer: connected,
        is_ack: ack,
        is_nak: nak,
        is_pair: false,
        is_continuous_send: false,
        b_and_as: false,
    }
}

fn encode(e: &Envelope) -> Vec<u8> {
    let mut out: Vec<u8> = Vec::new();
    e.encode(&mut out);
    out
}

#[test]
fn unreliable_data_round_trip() {
    let e = Envelope {
        header: header(true, false, false),
        body: EnvelopeBody::Data {
            sequence_number: 7,
            flags: PacketFlags { reliability: Reliability::Unreliable, has_split_packet: false },
            reliable_index: None,
            payload: vec![0x09, 1, 2, 3],
        },
    };
    let bytes = encode(&e);
    assert_eq!(bytes, vec![0x80, 0, 0, 7, 0x00, 0, 32, 0x09, 1, 2, 3]);
    let d = Envelope::decode(&bytes).unwrap();
    assert_eq!(d.header, header(true, false, false));
    match d.body {
        EnvelopeBody::Data { sequence_number, flags, reliable_index, payload } => {
            assert_eq!(sequence_number, 7);
            assert_eq!(flags.reliability, Reliability::Unreliable);
            assert!(!flags.has_split_packet);
            assert_eq!(reliable_index, None);
            assert_eq!(payload, vec![0x09, 1, 2, 3]);
        },
        EnvelopeBody::AckNak { .. } => panic!("expected a data envelope"),
    }
}

#[test]
fn reliable_data_round_trip() {
    let e = Envelope {
        header: header(true, false, false),
        body: EnvelopeBody::Data {
            sequence_number: 0xabcdef,
            flags: PacketFlags {
                reliability: Reliability::ReliableOrdered,
                has_split_packet: true,
            },
            reliable_index: Some(0x000102),
            payload: vec![42; 100],
        },
    };
    let bytes = encode(&e);
    assert_eq!(bytes[4], 3u8 << 5 | 1 << 4);
    assert_eq!(&bytes[5..7], &[(800u16 >> 8) as u8, (800 & 0xff) as u8]);
    let d = Envelope::decode(&bytes).unwrap();
    match d.body {
        EnvelopeBody::Data { sequence_number, flags, reliable_index, payload } => {
            assert_eq!(sequence_number, 0xabcdef);
            assert_eq!(flags.reliability, Reliability::ReliableOrdered);
            assert!(flags.has_split_packet);
            assert_eq!(reliable_index, Some(0x000102));
            assert_eq!(payload, vec![42; 100]);
        },
        EnvelopeBody::AckNak { .. } => panic!("expected a data envelope"),
    }
}

#[test]
fn ack_round_trip_single_and_pair() {
    let e = Envelope {
        header: header(true, true, false),
        body: EnvelopeBody::AckNak {
            records: vec![
                SequenceNumberRange {
                    max_equals_to_min: true,
                    sequence_number_min: 5,
                    sequence_number_max: None,
                },
                SequenceNumberRange {
                    max_equals_to_min: false,
                    sequence_number_min: 10,
                    sequence_number_max: Some(20),
                },
            ],
        },
    };
    let bytes = encode(&e);
    assert_eq!(bytes, vec![0xc0, 0, 2, 1, 0, 0, 5, 0, 0, 0, 10, 0, 0, 20]);
    let d = Envelope::decode(&bytes).unwrap();
    assert!(d.header.is_ack);
    match d.body {
        EnvelopeBody::AckNak { records } => {
            assert_eq!(records.len(), 2);
            assert_eq!(records[0].sequence_number_min, 5);
            assert_eq!(records[0].sequence_number_max, None);
            assert_eq!(records[1].sequence_number_min, 10);
            assert_eq!(records[1].sequence_number_max, Some(20));
        },
        EnvelopeBody::Data { .. } => panic!("expected an ack envelope"),
    }
}

#[test]
fn nak_round_trip() {
    let e = Envelope {
        header: header(false, false, true),
        body: EnvelopeBody::AckNak {
            records: vec![SequenceNumberRange {
                max_equals_to_min: true,
                sequence_number_min: 0xffffff,
                sequence_number_max: None,
            }],
        },
    };
    let bytes = encode(&e);
    assert_eq!(bytes, vec![0x20, 0, 1, 1, 0xff, 0xff, 0xff]);
    let d = Envelope::decode(&bytes).unwrap();
    assert!(d.header.is_nak);
    match d.body {
        EnvelopeBody::AckNak { records } => {
            assert_eq!(records[0].sequence_number_min, 0xffffff);
        },
        EnvelopeBody::Data { .. } => panic!("expected a nak envelope"),
    }
}

#[test]
fn decode_rejects_bit_length_not_multiple_of_eight() {
    // unreliable data header with a bit length of 33
    let bytes: Vec<u8> = vec![0x80, 0, 0, 1, 0x00, 0, 33, 0, 0, 0, 0, 0];
    assert_eq!(Envelope::decode(&bytes).unwrap_err(), DecodeError::BadBitLength);
}

#[test]
fn decode_rejects_empty_record_list() {
    let bytes: Vec<u8> = vec![0xc0, 0, 0];
    assert_eq!(Envelope::decode(&bytes).unwrap_err(), DecodeError::EmptyRecordList);
}

#[test]
fn decode_rejects_trailing_bytes() {
    let bytes: Vec<u8> = vec![0x80, 0, 0, 1, 0x00, 0, 8, 0xaa, 0xbb];
    assert_eq!(Envelope::decode(&bytes).unwrap_err(), DecodeError::TrailingBytes);
    let ack: Vec<u8> = vec![0xc0, 0, 1, 1, 0, 0, 5, 9];
    assert_eq!(Envelope::decode(&ack).unwrap_err(), DecodeError::TrailingBytes);
}

#[test]
fn decode_rejects_truncated_buffers() {
    assert_eq!(Envelope::decode(&[]).unwrap_err(), DecodeError::OutOfBounds);
    assert_eq!(Envelope::decode(&[0x80, 0, 0]).unwrap_err(), DecodeError::OutOfBounds);
    // reliable header cut off before the reliable index
    let bytes: Vec<u8> = vec![0x80, 0, 0, 1, 2 << 5, 0, 8, 0];
    assert_eq!(Envelope::decode(&bytes).unwrap_err(), DecodeError::OutOfBounds);
    // payload shorter than the bit length promises
    let bytes2: Vec<u8> = vec![0x80, 0, 0, 1, 0x00, 0, 32, 1, 2];
    assert_eq!(Envelope::decode(&bytes2).unwrap_err(), DecodeError::OutOfBounds);
    // ack record list cut off
    let ack: Vec<u8> = vec![0xc0, 0, 2, 1, 0, 0, 5];
    assert_eq!(Envelope::decode(&ack).unwrap_err(), DecodeError::OutOfBounds);
}

#[test]
fn decode_never_panics_on_short_or_odd_input() {
    let patterns: [u8; 6] = [0x00, 0x05, 0x80, 0xc0, 0x20, 0xff];
    for len in 0..=20usize {
        for p in patterns {
            let mut bytes: Vec<u8> = Vec::new();
            let mut x: u8 = p;
            for _ in 0..len {
                bytes.push(x);
                x = x.wrapping_mul(31).wrapping_add(7);
            }
            // either verdict is fine; reaching one without a crash is the point
            let _ = Envelope::decode(&bytes);
        }
    }
}
