use raknet_core::endpoint::Endpoint;
use raknet_core::envelope::{Envelope, EnvelopeBody};
use raknet_core::packet::{PacketFlags, PacketType, Reliability};
use raknet_core::server::Server;
use raknet_core::settings::RakNetSettings;

const MAGIC: [u8; 16] = [
    0x00, 0xff, 0xff, 0x00, 0xfe, 0xfe, 0xfe, 0xfe, 0xfd, 0xfd, 0xfd, 0xfd, 0x12, 0x34, 0x56,
    0x78,
];

fn new_server() -> Server {
    Server::new(RakNetSettings::new(10, "0.0.0.0:19132".to_string()))
}

fn connection_request1(version: u8, padding: usize) -> Vec<u8> {
    let mut b: Vec<u8> = vec![0x05];
    b.extend_from_slice(&MAGIC);
    b.push(version);
    b.push(0);
    b.resize(19 + padding, 0);
    b
}

fn connection_request2(a: u8, b: u8, c: u8, d: u8, port: u16) -> Vec<u8> {
    let mut m: Vec<u8> = vec![0x07];
    m.extend_from_slice(&MAGIC);
    m.push(4);
    m.push(!a);
    m.push(!b);
    m.push(!c);
    m.push(!d);
    m.extend_from_slice(&port.to_be_bytes());
    m
}

fn online_connection_request(guid: u64, time: u64) -> Vec<u8> {
    let mut payload: Vec<u8> = vec![0x09];
    payload.extend_from_slice(&guid.to_be_bytes());
    payload.extend_from_slice(&time.to_be_bytes());
    let envelope = Envelope {
        header: PacketType {
            is_connected_to_peer: true,
            is_ack: false,
            is_nak: false,
            is_pair: false,
            is_continuous_send: false,
            b_and_as: false,
        },
        body: EnvelopeBody::Data {
            sequence_number: 0,
            flags: PacketFlags { reliability: Reliability::Unreliable, has_split_packet: false },
            reliable_index: None,
            payload,
        },
    };
    let mut out: Vec<u8> = Vec::new();
    envelope.encode(&mut out);
    out
}

#[test]
fn handshake_happy_path() {
    let mut server = new_server();
    let src = Endpoint::v4(10, 0, 0, 1, 4242);
    let request = connection_request1(10, 400);
    let reply = server.handle_packet(&request, src, 1000);

    assert_eq!(reply[0], 0x06);
    assert_eq!(&reply[1..17], &MAGIC);
    assert_eq!(reply[25], 0x00);
    let mtu = i16::from_be_bytes([reply[26], reply[27]]);
    assert_eq!(mtu, 400);

    let session = server.clients.get(src).copied().expect("session created");
    assert_eq!(session.mtu_size(), 400);
    assert_eq!(session.last_update(), 1000);
    assert!(!session.has_relationship());
    assert!(!session.has_guid());

    let request2 = connection_request2(192, 168, 0, 7, 5555);
    let reply2 = server.handle_packet(&request2, src, 2000);
    assert_eq!(reply2[0], 0x08);
    assert_eq!(&reply2[1..17], &MAGIC);
    assert_eq!(&reply2[17..25], &reply[17..25]); // the same server id in both replies
    let mtu2 = i16::from_be_bytes([reply2[25], reply2[26]]);
    assert_eq!(mtu2, 400);
    assert_eq!(reply2[27], 0x00);

    let session = server.clients.get(src).copied().unwrap();
    assert_eq!(session.relationship(), Some(Endpoint::v4(192, 168, 0, 7, 5555)));
    assert_eq!(session.last_update(), 2000);
}

#[test]
fn version_mismatch_replies_and_creates_no_session() {
    let mut server = new_server();
    let src = Endpoint::v4(10, 0, 0, 2, 4242);
    let request = connection_request1(9, 100);
    let reply = server.handle_packet(&request, src, 50);
    assert_eq!(reply[0], 0x19);
    assert_eq!(reply[1], 9);
    assert_eq!(&reply[2..18], &MAGIC);
    assert_eq!(reply.len(), 26);
    assert_eq!(server.clients.len(), 0);

    // a second-step request from that endpoint is discarded
    let request2 = connection_request2(1, 2, 3, 4, 1);
    let reply2 = server.handle_packet(&request2, src, 60);
    assert!(reply2.is_empty());
    assert_eq!(server.clients.len(), 0);
}

#[test]
fn unconnected_ping_is_idempotent() {
    let mut server = new_server();
    let a = Endpoint::v4(1, 1, 1, 1, 1111);
    let b = Endpoint::v4(2, 2, 2, 2, 2222);
    let ping: Vec<u8> = vec![0x01, 0, 0, 0, 0, 0, 0, 0, 0];
    let r1 = server.handle_packet(&ping, a, 500);
    let r2 = server.handle_packet(&ping, b, 500);
    let r3 = server.handle_packet(&ping, a, 500);
    assert_eq!(r1, r2);
    assert_eq!(r1, r3);
    assert_eq!(server.clients.len(), 0);

    assert_eq!(r1[0], 0x1c);
    assert_eq!(u64::from_be_bytes(r1[1..9].try_into().unwrap()), 500);
    let server_id = u64::from_be_bytes(r1[9..17].try_into().unwrap());
    assert_eq!(&r1[17..33], &MAGIC);
    let n = u16::from_be_bytes([r1[33], r1[34]]) as usize;
    let status = std::str::from_utf8(&r1[35..35 + n]).unwrap();
    assert_eq!(
        status,
        format!("MCPE;Limonite;407;1.16.10;0;20;{};world;Survival;1;19132;19133;", server_id)
    );
    assert_eq!(r1.len(), 35 + n);
}

#[test]
fn online_request_completes_the_handshake() {
    let mut server = new_server();
    let src = Endpoint::v4(10, 0, 0, 3, 7777);
    server.handle_packet(&connection_request1(10, 64), src, 1);
    server.handle_packet(&connection_request2(172, 16, 0, 9, 3333), src, 2);

    let reply = server.handle_packet(&online_connection_request(0xdead_beef_cafe_f00d, 77), src, 3);
    assert!(!reply.is_empty());

    let session = server.clients.get(src).copied().unwrap();
    assert_eq!(session.guid(), Some(0xdead_beef_cafe_f00d));
    assert!(session.has_guid());
    assert_eq!(session.last_update(), 3);

    let envelope = Envelope::decode(&reply).expect("reply is a well-formed envelope");
    assert!(envelope.header.is_connected_to_peer);
    assert!(!envelope.header.is_ack && !envelope.header.is_nak);
    match envelope.body {
        EnvelopeBody::Data { sequence_number, flags, reliable_index, payload } => {
            assert_eq!(sequence_number, 0);
            assert_eq!(flags.reliability, Reliability::Unreliable);
            assert_eq!(reliable_index, None);
            assert_eq!(payload.len(), 166);
            assert_eq!(payload[0], 0x10);
            // the requester's own address, octets complemented
            assert_eq!(&payload[1..8], &[4, !10u8, !0u8, !0u8, !3u8, 0x1e, 0x61]);
            assert_eq!(&payload[8..10], &[0, 0]);
            // the stored relationship address
            assert_eq!(&payload[10..17], &[4, !172u8, !16u8, !0u8, !9u8, 0x0d, 0x05]);
            // 19 placeholder addresses
            for i in 0..19 {
                assert_eq!(&payload[17 + 7 * i..24 + 7 * i], &[4, 0xff, 0xff, 0xff, 0xff, 0, 0]);
            }
            assert_eq!(u64::from_be_bytes(payload[150..158].try_into().unwrap()), 77);
            assert_eq!(u64::from_be_bytes(payload[158..166].try_into().unwrap()), 3);
        },
        EnvelopeBody::AckNak { .. } => panic!("expected a data envelope"),
    }
}

#[test]
fn online_request_without_session_is_discarded() {
    let mut server = new_server();
    let src = Endpoint::v4(9, 9, 9, 9, 9999);
    let reply = server.handle_packet(&online_connection_request(1, 2), src, 10);
    assert!(reply.is_empty());
    assert_eq!(server.clients.len(), 0);
}

#[test]
fn online_request_before_request2_is_discarded() {
    let mut server = new_server();
    let src = Endpoint::v4(9, 9, 9, 8, 9999);
    server.handle_packet(&connection_request1(10, 16), src, 1);
    let reply = server.handle_packet(&online_connection_request(1, 2), src, 2);
    assert!(reply.is_empty());
    let session = server.clients.get(src).copied().unwrap();
    assert!(!session.has_guid());
}

#[test]
fn unknown_and_malformed_packets_are_dropped() {
    let mut server = new_server();
    let src = Endpoint::v4(3, 3, 3, 3, 3333);
    assert!(server.handle_packet(&[], src, 0).is_empty());
    assert!(server.handle_packet(&[0x19], src, 0).is_empty());
    assert!(server.handle_packet(&[0xee, 1, 2], src, 0).is_empty());
    // a first request too short to carry the version and mtu fields
    assert!(server.handle_packet(&connection_request1(10, 0)[..18], src, 0).is_empty());
    // a second request for an endpoint that never did the first step
    assert!(server.handle_packet(&connection_request2(1, 2, 3, 4, 5), src, 0).is_empty());
    assert_eq!(server.clients.len(), 0);
}

#[test]
fn malformed_input_of_every_short_length_is_safe() {
    let mut server = new_server();
    let src = Endpoint::v4(4, 4, 4, 4, 4444);
    let patterns: [u8; 7] = [0x00, 0x01, 0x05, 0x07, 0x09, 0x80, 0xc0];
    for len in 0..=20usize {
        for p in patterns {
            let mut bytes: Vec<u8> = Vec::new();
            let mut x: u8 = p;
            for _ in 0..len {
                bytes.push(x);
                x = x.wrapping_mul(29).wrapping_add(13);
            }
            let _ = server.handle_packet(&bytes, src, 123);
        }
    }
}

#[test]
fn oversized_first_request_is_dropped() {
    let mut server = new_server();
    let src = Endpoint::v4(5, 5, 5, 5, 5555);
    // the implied MTU would not fit a signed 16-bit value
    let request = connection_request1(10, 32768);
    assert!(server.handle_packet(&request, src, 0).is_empty());
    assert_eq!(server.clients.len(), 0);
    // the largest MTU that still fits is accepted
    let request = connection_request1(10, 32767);
    let reply = server.handle_packet(&request, src, 0);
    assert_eq!(reply[0], 0x06);
    assert_eq!(i16::from_be_bytes([reply[26], reply[27]]), 32767);
}

#[test]
fn server_keeps_its_settings() {
    let server = new_server();
    assert_eq!(server.raknet_settings.get_version(), 10);
    assert_eq!(server.raknet_settings.get_address(), "0.0.0.0:19132");
    assert_eq!(server.raknet_settings.get_ip(), "0.0.0.0");
    assert_eq!(server.raknet_settings.get_port(), "19132");
}
